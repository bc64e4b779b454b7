//! Path resolution confined to a root directory.
//!
//! A path is a byte string with `/` between its components. Resolution is
//! lexical: empty components and `.` are dropped, `..` removes the component
//! before it (and is dropped at the top), and the outcome is compared with the
//! root component by component.

use vstd::prelude::*;
use crate::text::{
    find_byte, find_from, lemma_find_byte_bounds, lemma_find_byte_stops, copy_range, append,
    bytes_eq,
};

verus! {

/// The separator between components.
pub open spec fn SLASH() -> u8 {
    47
}

/// The component that stands for the directory itself.
pub open spec fn dot() -> Seq<u8> {
    seq![46u8]
}

/// The component that stands for the parent directory.
pub open spec fn dot_dot() -> Seq<u8> {
    seq![46u8, 46u8]
}

/// The components of a resolved path, outermost first.
pub type Components = Seq<Seq<u8>>;

/// The effect of one component on the components resolved so far.
pub open spec fn step(stack: Components, comp: Seq<u8>) -> Components {
    if comp.len() == 0 || comp == dot() {
        stack
    } else if comp == dot_dot() {
        if stack.len() > 0 {
            stack.drop_last()
        } else {
            stack
        }
    } else {
        stack.push(comp)
    }
}

/// The components reached from `stack` by walking `s[i..]`.
pub open spec fn walk(s: Seq<u8>, i: int, stack: Components) -> Components
    decreases s.len() - i,
{
    if 0 <= i && i < s.len() {
        let e = find_byte(s, SLASH(), i);
        if i <= e && e < s.len() {
            walk(s, e + 1, step(stack, s.subrange(i, e)))
        } else {
            step(stack, s.subrange(i, s.len() as int))
        }
    } else {
        stack
    }
}

/// The components of an absolute path.
pub open spec fn normalize(s: Seq<u8>) -> Components {
    walk(s, 0, Seq::empty())
}

/// The components that `arg` names when given in directory `cur`: an `arg`
/// that starts with `/` stands alone, any other is walked from `cur`.
pub open spec fn resolved(cur: Seq<u8>, arg: Seq<u8>) -> Components {
    if arg.len() > 0 && arg[0] == SLASH() {
        normalize(arg)
    } else {
        walk(arg, 0, normalize(cur))
    }
}

/// Is `path` the directory `root` or something below it?
pub open spec fn under(root: Components, path: Components) -> bool {
    root.len() <= path.len() && path.subrange(0, root.len() as int) == root
}

/// The components written one after another, a `/` before each.
pub open spec fn joined(p: Components) -> Seq<u8>
    decreases p.len(),
{
    if p.len() == 0 {
        Seq::empty()
    } else {
        joined(p.drop_last()) + seq![SLASH()] + p.last()
    }
}

/// The byte string of a resolved path; the top directory is `/`.
pub open spec fn render(p: Components) -> Seq<u8> {
    if p.len() == 0 {
        seq![SLASH()]
    } else {
        joined(p)
    }
}

/// What `arg`, given in directory `cur`, resolves to for a user confined to
/// `root`: the rendered path if it lies under the root, nothing otherwise.
pub open spec fn confined(root: Seq<u8>, cur: Seq<u8>, arg: Seq<u8>) -> Option<Seq<u8>> {
    if under(normalize(root), resolved(cur, arg)) {
        Some(render(resolved(cur, arg)))
    } else {
        None
    }
}

/// The model of a list of components held in vectors.
pub open spec fn comps(v: Seq<Vec<u8>>) -> Components {
    v.map_values(|c: Vec<u8>| c@)
}

/// A path under the root, once written out, starts with the root written
/// out, and what follows is nothing or begins a new component.
pub proof fn lemma_joined_under(root: Components, path: Components)
    requires
        under(root, path),
    ensures
        joined(path).len() >= joined(root).len(),
        joined(path).subrange(0, joined(root).len() as int) == joined(root),
        joined(path).len() == joined(root).len() || joined(path)[joined(root).len() as int]
            == SLASH(),
    decreases path.len(),
{
    if path.len() == root.len() {
        assert(path =~= root);
        assert(joined(path).subrange(0, joined(root).len() as int) =~= joined(root));
    } else {
        let shorter = path.drop_last();
        assert(shorter.subrange(0, root.len() as int) =~= path.subrange(0, root.len() as int));
        lemma_joined_under(root, shorter);
        let n = joined(root).len() as int;
        assert(joined(path) == joined(shorter) + seq![SLASH()] + path.last());
        assert(joined(path).subrange(0, n) =~= joined(shorter).subrange(0, n));
        if joined(shorter).len() == n {
            assert(joined(path)[n] == SLASH());
        } else {
            assert(joined(path)[n] == joined(shorter)[n]);
        }
    }
}

/// A component as resolution leaves it: not empty, neither `.` nor `..`, and
/// without a separator.
pub open spec fn clean_component(c: Seq<u8>) -> bool {
    &&& c.len() > 0
    &&& c != dot()
    &&& c != dot_dot()
    &&& forall|k: int| 0 <= k < c.len() ==> c[k] != SLASH()
}

/// Components as resolution leaves them.
pub open spec fn clean(p: Components) -> bool {
    forall|i: int| 0 <= i < p.len() ==> clean_component(#[trigger] p[i])
}

/// Walking a path from clean components leaves clean components.
pub proof fn lemma_walk_clean(s: Seq<u8>, i: int, stack: Components)
    requires
        0 <= i,
        clean(stack),
    ensures
        clean(walk(s, i, stack)),
    decreases s.len() - i,
{
    if i < s.len() {
        lemma_find_byte_bounds(s, SLASH(), i);
        let e = find_byte(s, SLASH(), i);
        let end = if e < s.len() {
            e
        } else {
            s.len() as int
        };
        let comp = s.subrange(i, end);
        let after = step(stack, comp);
        assert(clean(after)) by {
            assert forall|k: int| 0 <= k < after.len() implies clean_component(
                #[trigger] after[k],
            ) by {
                if k < stack.len() {
                    assert(after[k] == stack[k]);
                } else {
                    assert(after[k] == comp);
                    assert forall|j: int| 0 <= j < comp.len() implies comp[j] != SLASH() by {
                        assert(comp[j] == s[i + j]);
                    }
                }
            }
        }
        if e < s.len() {
            lemma_walk_clean(s, e + 1, after);
        }
    }
}

/// A clean component that follows a separator at the end of a path is
/// walked as itself.
proof fn lemma_walk_last(s: Seq<u8>, c: Seq<u8>, stack: Components)
    requires
        clean_component(c),
    ensures
        walk(s + seq![SLASH()] + c, s.len() as int + 1, stack) == stack.push(c),
{
    let t = s + seq![SLASH()] + c;
    let from = s.len() as int + 1;
    assert forall|k: int| from <= k < t.len() implies t[k] != SLASH() by {
        assert(t[k] == c[k - from]);
    }
    lemma_find_byte_stops(t, SLASH(), from, t.len() as int);
    assert(t.subrange(from, t.len() as int) =~= c);
}

/// Walking a path that ends in a separator and a clean component is walking
/// the path before them and then adding the component.
proof fn lemma_walk_appended(s: Seq<u8>, c: Seq<u8>, i: int, stack: Components)
    requires
        0 <= i <= s.len(),
        clean_component(c),
    ensures
        walk(s + seq![SLASH()] + c, i, stack) == walk(s, i, stack).push(c),
    decreases s.len() - i,
{
    let t = s + seq![SLASH()] + c;
    assert(t[s.len() as int] == SLASH());
    if i < s.len() {
        lemma_find_byte_bounds(s, SLASH(), i);
        let e = find_byte(s, SLASH(), i);
        assert forall|k: int| i <= k < e implies t[k] != SLASH() by {
            assert(t[k] == s[k]);
        }
        if e < s.len() {
            assert(t[e] == s[e]);
        }
        lemma_find_byte_stops(t, SLASH(), i, e);
        assert(t.subrange(i, e) =~= s.subrange(i, e));
        let after = step(stack, s.subrange(i, e));
        if e < s.len() {
            lemma_walk_appended(s, c, e + 1, after);
        } else {
            lemma_walk_last(s, c, after);
        }
    } else {
        lemma_find_byte_stops(t, SLASH(), i, i);
        assert(t.subrange(i, i) =~= Seq::<u8>::empty());
        lemma_walk_last(s, c, stack);
    }
}

/// Walking clean components, written out, adds them as they are.
pub proof fn lemma_walk_joined(p: Components, stack: Components)
    requires
        clean(p),
    ensures
        walk(joined(p), 0, stack) == stack + p,
    decreases p.len(),
{
    if p.len() == 0 {
        assert(stack + p =~= stack);
    } else {
        let shorter = p.drop_last();
        assert(clean(shorter)) by {
            assert forall|i: int| 0 <= i < shorter.len() implies clean_component(
                #[trigger] shorter[i],
            ) by {
                assert(shorter[i] == p[i]);
            }
        }
        lemma_walk_joined(shorter, stack);
        lemma_walk_appended(joined(shorter), p.last(), 0, stack);
        assert((stack + shorter).push(p.last()) =~= stack + p);
    }
}

/// Components written out start with a separator.
pub proof fn lemma_joined_starts(p: Components)
    requires
        p.len() > 0,
    ensures
        joined(p).len() > 0,
        joined(p)[0] == SLASH(),
    decreases p.len(),
{
    if p.len() > 1 {
        lemma_joined_starts(p.drop_last());
    } else {
        assert(joined(p.drop_last()).len() == 0);
    }
}

/// A resolved path reads back as the components it was written from.
pub proof fn lemma_render_reads_back(p: Components)
    requires
        clean(p),
    ensures
        normalize(render(p)) == p,
{
    if p.len() == 0 {
        let t = seq![SLASH()];
        lemma_find_byte_stops(t, SLASH(), 0, 0);
        assert(t.subrange(0, 0) =~= Seq::<u8>::empty());
        assert(walk(t, 1, Seq::<Seq<u8>>::empty()) == Seq::<Seq<u8>>::empty());
        assert(walk(t, 0, Seq::<Seq<u8>>::empty()) == Seq::<Seq<u8>>::empty());
        assert(normalize(t) =~= p);
    } else {
        lemma_walk_joined(p, Seq::empty());
        assert(Seq::<Seq<u8>>::empty() + p =~= p);
    }
}

/// What an argument resolves to is clean, whatever the directory and the
/// argument.
pub proof fn lemma_resolved_clean(cur: Seq<u8>, arg: Seq<u8>)
    ensures
        clean(resolved(cur, arg)),
{
    lemma_walk_clean(cur, 0, Seq::empty());
    lemma_walk_clean(arg, 0, Seq::empty());
    lemma_walk_clean(arg, 0, normalize(cur));
}

/// Walk `s` from the components in `stack`.
pub fn walk_onto(s: &[u8], stack: &mut Vec<Vec<u8>>)
    ensures
        comps(final(stack)@) == walk(s@, 0, comps(old(stack)@)),
{
    let mut i: usize = 0;
    while i < s.len()
        invariant
            i <= s@.len(),
            walk(s@, 0, comps(old(stack)@)) == walk(s@, i as int, comps(stack@)),
        decreases s@.len() - i,
    {
        let e: usize = find_from(s, 47, i);
        proof {
            lemma_find_byte_bounds(s@, SLASH(), i as int);
        }
        let ghost before = comps(stack@);
        let ghost comp = s@.subrange(i as int, e as int);
        let n: usize = e - i;
        if n == 0 {
        } else if n == 1 && s[i] == 46 {
            assert(comp =~= dot());
        } else if n == 2 && s[i] == 46 && s[i + 1] == 46 {
            assert(comp =~= dot_dot());
            assert(comp != dot());
            if stack.len() > 0 {
                stack.pop();
                assert(comps(stack@) =~= before.drop_last());
            }
        } else {
            assert(comp != dot()) by {
                if comp == dot() {
                    assert(comp.len() == 1 && comp[0] == 46);
                }
            }
            assert(comp != dot_dot()) by {
                if comp == dot_dot() {
                    assert(comp.len() == 2 && comp[0] == 46 && comp[1] == 46);
                }
            }
            let c: Vec<u8> = copy_range(s, i, e);
            stack.push(c);
            assert(comps(stack@) =~= before.push(comp));
        }
        assert(comps(stack@) == step(before, comp));
        if e < s.len() {
            i = e + 1;
        } else {
            i = e;
        }
    }
}

/// The components of `s`.
pub fn components(s: &[u8]) -> (r: Vec<Vec<u8>>)
    ensures
        comps(r@) == normalize(s@),
{
    let mut stack: Vec<Vec<u8>> = Vec::new();
    assert(comps(stack@) =~= Seq::<Seq<u8>>::empty());
    walk_onto(s, &mut stack);
    stack
}

/// Is `path` the directory `root` or something below it?
pub fn is_under(root: &Vec<Vec<u8>>, path: &Vec<Vec<u8>>) -> (r: bool)
    ensures
        r == under(comps(root@), comps(path@)),
{
    if root.len() > path.len() {
        return false;
    }
    let ghost rc = comps(root@);
    let ghost pc = comps(path@);
    let mut i: usize = 0;
    while i < root.len()
        invariant
            i <= root@.len() <= path@.len(),
            rc == comps(root@),
            pc == comps(path@),
            forall|k: int| 0 <= k < i ==> rc[k] == pc[k],
        decreases root@.len() - i,
    {
        if !bytes_eq(root[i].as_slice(), path[i].as_slice()) {
            assert(rc[i as int] == root@[i as int]@);
            assert(pc[i as int] == path@[i as int]@);
            assert(pc.subrange(0, rc.len() as int)[i as int] != rc[i as int]);
            return false;
        }
        assert(rc[i as int] == root@[i as int]@);
        assert(pc[i as int] == path@[i as int]@);
        i += 1;
    }
    assert(pc.subrange(0, rc.len() as int) =~= rc);
    true
}

/// Write the components out as a path.
pub fn render_path(path: &Vec<Vec<u8>>) -> (r: Vec<u8>)
    ensures
        r@ == render(comps(path@)),
{
    let mut out: Vec<u8> = Vec::new();
    if path.len() == 0 {
        out.push(47);
        assert(out@ =~= seq![SLASH()]);
        return out;
    }
    let ghost pc = comps(path@);
    let mut i: usize = 0;
    while i < path.len()
        invariant
            i <= path@.len(),
            pc == comps(path@),
            out@ == joined(pc.subrange(0, i as int)),
        decreases path@.len() - i,
    {
        let ghost before = out@;
        out.push(47);
        append(&mut out, path[i].as_slice());
        proof {
            let next = pc.subrange(0, i + 1);
            assert(next.drop_last() =~= pc.subrange(0, i as int));
            assert(next.last() == path@[i as int]@);
            assert(out@ =~= before + seq![SLASH()] + path@[i as int]@);
        }
        i += 1;
    }
    assert(pc.subrange(0, path@.len() as int) =~= pc);
    out
}

/// Resolve `arg`, given in directory `cur`, for a user confined to `root`.
/// The path comes back only if it lies under the root.
pub fn resolve(root: &[u8], cur: &[u8], arg: &[u8]) -> (r: Option<Vec<u8>>)
    ensures
        match confined(root@, cur@, arg@) {
            Some(p) => r.is_some() && r.unwrap()@ == p,
            None => r.is_none(),
        },
        r.is_some() ==> under(normalize(root@), normalize(r.unwrap()@)),
{
    proof {
        lemma_resolved_clean(cur@, arg@);
        lemma_render_reads_back(resolved(cur@, arg@));
    }
    let root_comps = components(root);
    let mut stack: Vec<Vec<u8>> = Vec::new();
    assert(comps(stack@) =~= Seq::<Seq<u8>>::empty());
    if !(arg.len() > 0 && arg[0] == 47) {
        walk_onto(cur, &mut stack);
    }
    walk_onto(arg, &mut stack);
    if is_under(&root_comps, &stack) {
        Some(render_path(&stack))
    } else {
        None
    }
}

} // verus!
