//! The dependency graph: one entry per loaded uri, holding its parsed
//! content and its resolved import table. `flatten` walks the transitive
//! imports depth-first, first-seen wins, which makes the walk cycle-safe
//! and fixes the stylesheet merge order; `flatten_dependents` walks the
//! other way to find every document an edit must re-evaluate.

use vstd::prelude::*;
use crate::ast;
use crate::base::{is_relative_path, is_relative_path_spec, resolve, resolve_spec};
use crate::css_ast::Sheet;
use crate::text::{seq_contains_str, str_eq, vec_contains_string};

verus! {

/// What one uri parses to: a document or a bare stylesheet.
pub enum DependencyContent {
    Node(ast::Node),
    StyleSheet(Sheet),
}

/// One graph entry: a uri, its parsed content, and its import table
/// mapping the local import name to the resolved target uri, in source
/// order.
pub struct Dependency {
    pub uri: String,
    pub content: DependencyContent,
    pub dependencies: Vec<(String, String)>,
}

/// The graph itself: entries in insertion order.
pub struct DependencyGraph {
    pub dependencies: Vec<Dependency>,
}

/// The first entry whose uri reads as `uri`, as an index.
pub open spec fn dep_index(deps: Seq<Dependency>, uri: Seq<char>, i: int) -> Option<int>
    decreases deps.len() - i,
{
    if i < 0 || i >= deps.len() {
        None
    } else if deps[i].uri@ == uri {
        Some(i)
    } else {
        dep_index(deps, uri, i + 1)
    }
}

/// The entry loaded for `uri`, if any.
pub open spec fn find_dep(g: DependencyGraph, uri: Seq<char>) -> Option<Dependency> {
    match dep_index(g.dependencies@, uri, 0) {
        Some(i) => Some(g.dependencies@[i]),
        None => None,
    }
}

/// The target uris of an entry's import table, in source order.
pub open spec fn targets_from(table: Seq<(String, String)>, i: int) -> Seq<Seq<char>>
    decreases table.len() - i,
{
    if i < 0 || i >= table.len() {
        Seq::empty()
    } else {
        seq![table[i].1@] + targets_from(table, i + 1)
    }
}

pub open spec fn dep_targets(d: Dependency) -> Seq<Seq<char>> {
    targets_from(d.dependencies@, 0)
}

/// Pair every target with the importer that reaches it.
pub open spec fn pair_with(ts: Seq<Seq<char>>, importer: Seq<char>) -> Seq<
    (Seq<char>, Option<Seq<char>>),
> {
    Seq::new(ts.len(), |i: int| (ts[i], Some(importer)))
}

/// How many entries from `i` on name a uri not yet visited; the measure
/// that makes the depth-first walk terminate.
pub open spec fn count_unvisited(deps: Seq<Dependency>, visited: Set<Seq<char>>, i: int) -> nat
    decreases deps.len() - i,
{
    if i < 0 || i >= deps.len() {
        0
    } else if visited.contains(deps[i].uri@) {
        count_unvisited(deps, visited, i + 1)
    } else {
        1 + count_unvisited(deps, visited, i + 1)
    }
}

/// A found index lies in range and names the uri.
pub proof fn lemma_dep_index_bounds(deps: Seq<Dependency>, uri: Seq<char>, i: int)
    requires
        dep_index(deps, uri, i) is Some,
    ensures
        i <= dep_index(deps, uri, i)->0 < deps.len(),
        deps[dep_index(deps, uri, i)->0].uri@ == uri,
    decreases deps.len() - i,
{
    if 0 <= i < deps.len() && deps[i].uri@ != uri {
        lemma_dep_index_bounds(deps, uri, i + 1);
    }
}

/// Visiting more never raises the count.
pub proof fn lemma_count_mono(deps: Seq<Dependency>, v: Set<Seq<char>>, u: Seq<char>, i: int)
    ensures
        count_unvisited(deps, v.insert(u), i) <= count_unvisited(deps, v, i),
    decreases deps.len() - i,
{
    if 0 <= i < deps.len() {
        lemma_count_mono(deps, v, u, i + 1);
    }
}

/// Visiting a loaded, unvisited uri strictly lowers the count.
pub proof fn lemma_count_insert(deps: Seq<Dependency>, v: Set<Seq<char>>, u: Seq<char>, i: int)
    requires
        !v.contains(u),
        dep_index(deps, u, i) is Some,
    ensures
        count_unvisited(deps, v.insert(u), i) < count_unvisited(deps, v, i),
    decreases deps.len() - i,
{
    if 0 <= i < deps.len() {
        if deps[i].uri@ == u {
            lemma_count_mono(deps, v, u, i + 1);
        } else {
            lemma_count_insert(deps, v, u, i + 1);
        }
    }
}

/// The depth-first walk itself, over an explicit stack: pairs still to
/// visit, front first. A uri already visited, or never loaded, is passed
/// over; a fresh one is emitted with its importer and its own imports go
/// onto the front of the stack.
pub open spec fn dfs(
    g: DependencyGraph,
    stack: Seq<(Seq<char>, Option<Seq<char>>)>,
    visited: Set<Seq<char>>,
) -> Seq<(Seq<char>, Option<Seq<char>>)>
    decreases count_unvisited(g.dependencies@, visited, 0), stack.len(),
    via dfs_decreases
{
    if stack.len() == 0 {
        Seq::empty()
    } else {
        let (u, imp) = stack[0];
        if visited.contains(u) {
            dfs(g, stack.drop_first(), visited)
        } else {
            match dep_index(g.dependencies@, u, 0) {
                None => dfs(g, stack.drop_first(), visited),
                Some(ix) => {
                    let d = g.dependencies@[ix];
                    seq![(u, imp)] + dfs(
                        g,
                        pair_with(dep_targets(d), u) + stack.drop_first(),
                        visited.insert(u),
                    )
                },
            }
        }
    }
}

#[via_fn]
proof fn dfs_decreases(
    g: DependencyGraph,
    stack: Seq<(Seq<char>, Option<Seq<char>>)>,
    visited: Set<Seq<char>>,
) {
    if stack.len() > 0 {
        let (u, imp) = stack[0];
        if !visited.contains(u) && dep_index(g.dependencies@, u, 0) is Some {
            lemma_count_insert(g.dependencies@, visited, u, 0);
        }
    }
}

/// The transitive imports of `uri`, depth-first, each uri once, paired
/// with the importer that first reached it (`None` for `uri` itself).
pub open spec fn flatten_spec(g: DependencyGraph, uri: Seq<char>) -> Seq<
    (Seq<char>, Option<Seq<char>>),
> {
    dfs(g, seq![(uri, None)], Set::empty())
}

/// Whether the walk from `from` reaches `to`.
pub open spec fn reaches(g: DependencyGraph, from: Seq<char>, to: Seq<char>) -> bool {
    exists|j: int| 0 <= j < flatten_spec(g, from).len() && flatten_spec(g, from)[j].0 == to
}

/// The entries from `i` on that transitively import `uri`, in graph
/// order, `uri` itself excluded.
pub open spec fn dependents_from(g: DependencyGraph, uri: Seq<char>, i: int) -> Seq<Seq<char>>
    decreases g.dependencies@.len() - i,
{
    if i < 0 || i >= g.dependencies@.len() {
        Seq::empty()
    } else {
        let entry = g.dependencies@[i].uri@;
        if entry != uri && reaches(g, entry, uri) {
            seq![entry] + dependents_from(g, uri, i + 1)
        } else {
            dependents_from(g, uri, i + 1)
        }
    }
}

/// Everything an edit of `uri` must re-evaluate: the uri itself, then
/// every loaded document that reaches it, in graph order.
pub open spec fn dependents_spec(g: DependencyGraph, uri: Seq<char>) -> Seq<Seq<char>> {
    seq![uri] + dependents_from(g, uri, 0)
}

/// The view of a worklist or result list of `(uri, importer)` pairs.
pub open spec fn pairs_view(s: Seq<(String, Option<String>)>) -> Seq<
    (Seq<char>, Option<Seq<char>>),
> {
    Seq::new(
        s.len(),
        |i: int|
            (
                s[i].0@,
                match s[i].1 {
                    Some(u) => Some(u@),
                    None => None,
                },
            ),
    )
}

/// The set of names a visited-list stands for.
pub open spec fn visited_set(vs: Seq<String>) -> Set<Seq<char>> {
    Set::new(|u: Seq<char>| seq_contains_str(vs, u))
}

/// The targets of an import table, element by element.
pub proof fn lemma_targets_from(table: Seq<(String, String)>, i: int)
    ensures
        i >= 0 ==> (#[trigger] targets_from(table, i)).len() == if i <= table.len() {
            table.len() - i
        } else {
            0
        },
        forall|j: int|
            0 <= i && 0 <= j && i + j < table.len() ==> targets_from(table, i)[j] == table[i
                + j].1@,
    decreases table.len() - i,
{
    if 0 <= i < table.len() {
        lemma_targets_from(table, i + 1);
    }
}

/// Marking one more uri visited inserts exactly that name.
pub proof fn lemma_visited_push(vs: Seq<String>, u: String)
    ensures
        visited_set(vs.push(u)) == visited_set(vs).insert(u@),
{
    assert forall|x: Seq<char>| #[trigger] visited_set(vs.push(u)).contains(x)
        == visited_set(vs).insert(u@).contains(x) by {
        if seq_contains_str(vs.push(u), x) {
            let i = choose|i: int| 0 <= i < vs.push(u).len() && vs.push(u)[i]@ == x;
            if i < vs.len() {
                assert(vs[i]@ == x);
            } else {
                assert(u@ == x);
            }
        }
        if seq_contains_str(vs, x) {
            let i = choose|i: int| 0 <= i < vs.len() && vs[i]@ == x;
            assert(vs.push(u)[i]@ == x);
        }
        if u@ == x {
            assert(vs.push(u)[vs.len() as int]@ == x);
        }
    }
    assert(visited_set(vs.push(u)) =~= visited_set(vs).insert(u@));
}

/// The import table an inserted document gets: one row per import
/// declaration, keyed by its `id` (or, lacking one, its written `src`),
/// pointing at the `src` resolved against the importing uri.
pub open spec fn table_from(imps: Seq<ast::Element>, i: int, base: Seq<char>) -> Seq<
    (Seq<char>, Seq<char>),
>
    decreases imps.len() - i,
{
    if i < 0 || i >= imps.len() {
        Seq::empty()
    } else {
        let src = ast::attr_value_of("src"@, imps[i])->0;
        let target = if is_relative_path_spec(src) {
            resolve_spec(base, src)
        } else {
            src
        };
        let name = match ast::attr_value_of("id"@, imps[i]) {
            Some(id) => id,
            None => src,
        };
        seq![(name, target)] + table_from(imps, i + 1, base)
    }
}

/// The import table of parsed content.
pub open spec fn deps_table(content: DependencyContent, base: Seq<char>) -> Seq<
    (Seq<char>, Seq<char>),
> {
    match content {
        DependencyContent::Node(n) => table_from(ast::imports_of(n), 0, base),
        DependencyContent::StyleSheet(_) => Seq::empty(),
    }
}

/// The view of an import table.
pub open spec fn table_view(t: Seq<(String, String)>) -> Seq<(Seq<char>, Seq<char>)> {
    Seq::new(t.len(), |i: int| (t[i].0@, t[i].1@))
}

/// What an entry must read as after an insert.
pub open spec fn entry_matches(d: Dependency, uri: Seq<char>, content: DependencyContent) -> bool {
    &&& d.uri@ == uri
    &&& d.content == content
    &&& table_view(d.dependencies@) == deps_table(content, uri)
}

/// The first target in an import table under `name`.
pub open spec fn target_of(d: Dependency, name: Seq<char>) -> Option<Seq<char>> {
    target_from(d.dependencies@, name, 0)
}

pub open spec fn target_from(table: Seq<(String, String)>, name: Seq<char>, i: int) -> Option<
    Seq<char>,
>
    decreases table.len() - i,
{
    if i < 0 || i >= table.len() {
        None
    } else if table[i].0@ == name {
        Some(table[i].1@)
    } else {
        target_from(table, name, i + 1)
    }
}

impl Dependency {
    /// Look a local import name up in this entry's table.
    pub fn get_dependency_uri<'a>(&'a self, name: &String) -> (r: Option<&'a String>)
        ensures
            match target_of(*self, name@) {
                Some(t) => r is Some && r->0@ == t,
                None => r is None,
            },
    {
        let mut i: usize = 0;
        while i < self.dependencies.len()
            invariant
                0 <= i <= self.dependencies@.len(),
                target_from(self.dependencies@, name@, 0) == target_from(
                    self.dependencies@,
                    name@,
                    i as int,
                ),
            decreases self.dependencies@.len() - i,
        {
            if str_eq(self.dependencies[i].0.as_str(), name.as_str()) {
                return Some(&self.dependencies[i].1);
            }
            i += 1;
        }
        None
    }
}

impl DependencyGraph {
    /// An empty graph.
    pub fn new() -> (r: DependencyGraph)
        ensures
            r.dependencies@ == Seq::<Dependency>::empty(),
    {
        DependencyGraph { dependencies: Vec::new() }
    }

    /// The entry loaded for `uri`, if any.
    pub fn get_dependency<'a>(&'a self, uri: &String) -> (r: Option<&'a Dependency>)
        ensures
            match find_dep(*self, uri@) {
                Some(d) => r is Some && *r->0 == d,
                None => r is None,
            },
    {
        let mut i: usize = 0;
        while i < self.dependencies.len()
            invariant
                0 <= i <= self.dependencies@.len(),
                dep_index(self.dependencies@, uri@, 0) == dep_index(
                    self.dependencies@,
                    uri@,
                    i as int,
                ),
            decreases self.dependencies@.len() - i,
        {
            if str_eq(self.dependencies[i].uri.as_str(), uri.as_str()) {
                return Some(&self.dependencies[i]);
            }
            i += 1;
        }
        None
    }

    /// Insert parsed content for `uri`, computing its import table;
    /// replaces the entry a reload already has.
    pub fn load_dependency(&mut self, uri: String, content: DependencyContent)
        ensures
            ({
                let pre = old(self).dependencies@;
                let post = final(self).dependencies@;
                match dep_index(pre, uri@, 0) {
                    Some(i) => {
                        &&& post.len() == pre.len()
                        &&& forall|j: int| 0 <= j < pre.len() && j != i ==> post[j] == pre[j]
                        &&& entry_matches(post[i], uri@, content)
                    },
                    None => {
                        &&& post.len() == pre.len() + 1
                        &&& forall|j: int| 0 <= j < pre.len() ==> post[j] == pre[j]
                        &&& entry_matches(post.last(), uri@, content)
                    },
                }
            }),
    {
        let table = build_table(&content, &uri);
        let index = self.find_index(&uri);
        let entry = Dependency { uri, content, dependencies: table };
        let ghost gentry = entry;
        match index {
            Some(i) => {
                proof {
                    lemma_dep_index_bounds(self.dependencies@, gentry.uri@, 0);
                }
                let ghost pre = self.dependencies@;
                self.dependencies.remove(i);
                self.dependencies.insert(i, entry);
                proof {
                    assert(self.dependencies@ =~= pre.update(i as int, gentry));
                }
            },
            None => {
                self.dependencies.push(entry);
                proof {
                    assert(self.dependencies@.last() == gentry);
                }
            },
        }
    }

    /// The transitive imports of `uri`, depth-first, each reached uri
    /// once, paired with the importer that first reached it (`None` for
    /// `uri` itself).
    pub fn flatten(&self, uri: &String) -> (r: Vec<(String, Option<String>)>)
        ensures
            pairs_view(r@) == flatten_spec(*self, uri@),
    {
        let mut out: Vec<(String, Option<String>)> = Vec::new();
        let mut visited: Vec<String> = Vec::new();
        let mut stack: Vec<(String, Option<String>)> = Vec::new();
        stack.push((uri.clone(), None));
        proof {
            assert(pairs_view(stack@) =~= seq![(uri@, None::<Seq<char>>)]);
            assert(visited_set(visited@) =~= Set::<Seq<char>>::empty());
            assert(pairs_view(out@) + dfs(*self, pairs_view(stack@), visited_set(visited@))
                =~= flatten_spec(*self, uri@));
        }
        while stack.len() > 0
            invariant
                pairs_view(out@) + dfs(*self, pairs_view(stack@), visited_set(visited@))
                    == flatten_spec(*self, uri@),
            decreases count_unvisited(
                self.dependencies@,
                visited_set(visited@),
                0,
            ), stack@.len(),
        {
            let ghost st = pairs_view(stack@);
            let ghost vis = visited_set(visited@);
            let ghost acc = pairs_view(out@);
            let pair = stack.remove(0);
            proof {
                assert(pairs_view(stack@) =~= st.drop_first());
                assert((pair.0@, match pair.1 {
                    Some(u) => Some(u@),
                    None => None,
                }) == st[0]);
            }
            if vec_contains_string(&visited, &pair.0) {
                proof {
                    assert(vis.contains(st[0].0));
                    assert(dfs(*self, st, vis) == dfs(*self, st.drop_first(), vis));
                }
            } else {
                match self.get_dependency(&pair.0) {
                    None => {
                        proof {
                            assert(dfs(*self, st, vis) == dfs(*self, st.drop_first(), vis));
                        }
                    },
                    Some(d) => {
                        let ghost gd = *d;
                        let (u, imp) = pair;
                        out.push((u.clone(), imp));
                        // the imports of the fresh uri go onto the front
                        let mut front: Vec<(String, Option<String>)> = Vec::new();
                        let table = &d.dependencies;
                        let mut k: usize = 0;
                        while k < table.len()
                            invariant
                                0 <= k <= table@.len(),
                                table@ == gd.dependencies@,
                                front@.len() == k,
                                forall|j: int|
                                    0 <= j < k ==> front@[j].0@ == table@[j].1@ && (
                                    match front@[j].1 {
                                        Some(s) => Some(s@),
                                        None => None,
                                    }) == Some(u@),
                            decreases table@.len() - k,
                        {
                            front.push((table[k].1.clone(), Some(u.clone())));
                            k += 1;
                        }
                        proof {
                            lemma_targets_from(gd.dependencies@, 0);
                            assert(pairs_view(front@) =~= pair_with(dep_targets(gd), u@));
                        }
                        let mut ns = front;
                        ns.append(&mut stack);
                        stack = ns;
                        let ghost pre_vis = visited@;
                        visited.push(u.clone());
                        proof {
                            lemma_visited_push(pre_vis, u);
                            assert(pairs_view(stack@) =~= pair_with(dep_targets(gd), u@)
                                + st.drop_first());
                            assert(!vis.contains(st[0].0));
                            assert(dep_index(self.dependencies@, st[0].0, 0) is Some);
                            lemma_count_insert(self.dependencies@, vis, st[0].0, 0);
                            assert(dfs(*self, st, vis) == seq![st[0]] + dfs(
                                *self,
                                pairs_view(stack@),
                                vis.insert(st[0].0),
                            ));
                            assert(pairs_view(out@) =~= acc + seq![st[0]]);
                            assert(visited_set(visited@) == vis.insert(st[0].0));
                            assert(pairs_view(out@) + dfs(
                                *self,
                                pairs_view(stack@),
                                visited_set(visited@),
                            ) =~= acc + dfs(*self, st, vis));
                        }
                    },
                }
            }
        }
        proof {
            assert(pairs_view(stack@).len() == 0);
            assert(dfs(*self, pairs_view(stack@), visited_set(visited@)) =~= Seq::<
                (Seq<char>, Option<Seq<char>>),
            >::empty());
            assert(pairs_view(out@) =~= pairs_view(out@) + dfs(
                *self,
                pairs_view(stack@),
                visited_set(visited@),
            ));
        }
        out
    }

    /// Every loaded document an edit of `uri` must re-evaluate: `uri`
    /// itself first, then each entry that transitively imports it, in
    /// graph order.
    pub fn flatten_dependents(&self, uri: &String) -> (r: Vec<String>)
        ensures
            crate::ast::str_views(r@) == dependents_spec(*self, uri@),
    {
        let mut out: Vec<String> = Vec::new();
        out.push(uri.clone());
        proof {
            assert(crate::ast::str_views(out@) =~= seq![uri@]);
        }
        let mut i: usize = 0;
        while i < self.dependencies.len()
            invariant
                0 <= i <= self.dependencies@.len(),
                crate::ast::str_views(out@) + dependents_from(*self, uri@, i as int)
                    == dependents_spec(*self, uri@),
            decreases self.dependencies@.len() - i,
        {
            let ghost acc = crate::ast::str_views(out@);
            let entry_uri = &self.dependencies[i].uri;
            if !str_eq(entry_uri.as_str(), uri.as_str()) {
                let fl = self.flatten(entry_uri);
                if flatten_contains(&fl, uri) {
                    assert(reaches(*self, entry_uri@, uri@));
                    out.push(entry_uri.clone());
                    proof {
                        assert(crate::ast::str_views(out@) =~= acc + seq![entry_uri@]);
                        assert(crate::ast::str_views(out@) + dependents_from(
                            *self,
                            uri@,
                            i + 1,
                        ) =~= acc + dependents_from(*self, uri@, i as int));
                    }
                } else {
                    assert(!reaches(*self, entry_uri@, uri@));
                }
            }
            i += 1;
        }
        proof {
            assert(dependents_from(*self, uri@, self.dependencies@.len() as int) =~= Seq::<
                Seq<char>,
            >::empty());
            assert(crate::ast::str_views(out@) =~= crate::ast::str_views(out@)
                + dependents_from(*self, uri@, self.dependencies@.len() as int));
        }
        out
    }

    /// The position of the entry loaded for `uri`, if any.
    fn find_index(&self, uri: &String) -> (r: Option<usize>)
        ensures
            match dep_index(self.dependencies@, uri@, 0) {
                Some(i) => r is Some && r->0 == i,
                None => r is None,
            },
    {
        let mut i: usize = 0;
        while i < self.dependencies.len()
            invariant
                0 <= i <= self.dependencies@.len(),
                dep_index(self.dependencies@, uri@, 0) == dep_index(
                    self.dependencies@,
                    uri@,
                    i as int,
                ),
            decreases self.dependencies@.len() - i,
        {
            if str_eq(self.dependencies[i].uri.as_str(), uri.as_str()) {
                proof {
                    assert(dep_index(self.dependencies@, uri@, i as int) == Some(i as int));
                }
                return Some(i);
            }
            i += 1;
        }
        None
    }
}

/// Whether a flattened walk emitted `uri`.
fn flatten_contains(fl: &Vec<(String, Option<String>)>, uri: &String) -> (r: bool)
    ensures
        r == exists|j: int| 0 <= j < pairs_view(fl@).len() && pairs_view(fl@)[j].0 == uri@,
{
    let mut i: usize = 0;
    while i < fl.len()
        invariant
            0 <= i <= fl@.len(),
            forall|j: int| 0 <= j < i ==> pairs_view(fl@)[j].0 != uri@,
        decreases fl@.len() - i,
    {
        if str_eq(fl[i].0.as_str(), uri.as_str()) {
            assert(pairs_view(fl@)[i as int].0 == uri@);
            return true;
        }
        i += 1;
    }
    false
}

/// Compute the import table of parsed content for the given uri.
fn build_table(content: &DependencyContent, uri: &String) -> (r: Vec<(String, String)>)
    ensures
        table_view(r@) == deps_table(*content, uri@),
{
    let mut table: Vec<(String, String)> = Vec::new();
    match content {
        DependencyContent::Node(node) => {
            let imports = ast::get_imports(node);
            let ghost imps = ast::imports_of(*node);
            proof {
                ast::lemma_imports_of(*node);
            }
            let mut i: usize = 0;
            while i < imports.len()
                invariant
                    0 <= i <= imps.len(),
                    imports@.len() == imps.len(),
                    ast::deref_elements(imports@) == imps,
                    forall|j: int| 0 <= j < imps.len() ==> ast::is_import(#[trigger] imps[j]),
                    table_view(table@) + table_from(imps, i as int, uri@) == table_from(
                        imps,
                        0,
                        uri@,
                    ),
                decreases imps.len() - i,
            {
                let ghost pre = table@;
                assert(*imports@[i as int] == imps[i as int]);
                let el = imports[i];
                let src = match ast::get_attribute_value("src", el) {
                    Some(s) => s.clone(),
                    None => {
                        proof {
                            assert(ast::is_import(imps[i as int]));
                            assert(false);
                        }
                        String::new()
                    },
                };
                let target = if is_relative_path(&src) {
                    resolve(uri, &src)
                } else {
                    src.clone()
                };
                let name = match ast::get_attribute_value("id", el) {
                    Some(id) => id.clone(),
                    None => src.clone(),
                };
                table.push((name, target));
                proof {
                    assert(table_from(imps, i as int, uri@) == seq![
                        (name@, target@),
                    ] + table_from(imps, i + 1, uri@));
                    assert(table_view(table@) =~= table_view(pre) + seq![(name@, target@)]);
                    assert(table_view(table@) + table_from(imps, i + 1, uri@) =~= table_view(pre)
                        + table_from(imps, i as int, uri@));
                }
                i += 1;
            }
            proof {
                assert(table_from(imps, imps.len() as int, uri@) =~= Seq::<
                    (Seq<char>, Seq<char>),
                >::empty());
                assert(table_view(table@) =~= table_view(table@) + table_from(
                    imps,
                    imps.len() as int,
                    uri@,
                ));
            }
        },
        DependencyContent::StyleSheet(_) => {
            proof {
                assert(table_view(table@) =~= Seq::<(Seq<char>, Seq<char>)>::empty());
            }
        },
    }
    table
}

} // verus!
