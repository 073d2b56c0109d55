//! The scope stack, as mathematics: an ordered sequence of frames, innermost
//! last, each frame an ordered sequence of name-to-entry bindings.

use vstd::prelude::*;

use crate::ast::ExprV;
use crate::ast::Type;

verus! {

/// A scope entry: the declared type and the most recently captured value
/// expression of one variable.
pub struct EntryV {
    pub var_type: Type,
    pub var_value: ExprV,
}

/// The position of `name` in the frame, or `-1` when the frame does not bind
/// it.
pub open spec fn frame_find(f: Seq<(Seq<char>, EntryV)>, name: Seq<char>) -> int
    decreases f.len(),
{
    if f.len() == 0 {
        -1
    } else if f[0].0 == name {
        0
    } else {
        let r = frame_find(f.drop_first(), name);
        if r < 0 {
            -1
        } else {
            r + 1
        }
    }
}

/// The entry bound to `name` in the frame, if any.
pub open spec fn frame_lookup(f: Seq<(Seq<char>, EntryV)>, name: Seq<char>) -> Option<EntryV> {
    let k = frame_find(f, name);
    if k >= 0 {
        Some(f[k].1)
    } else {
        None
    }
}

/// The frame with `name` bound to `e`: the existing binding overwritten in
/// place, or a new binding appended.
pub open spec fn frame_insert(f: Seq<(Seq<char>, EntryV)>, name: Seq<char>, e: EntryV) -> Seq<
    (Seq<char>, EntryV),
> {
    let k = frame_find(f, name);
    if k >= 0 {
        f.update(k, (name, e))
    } else {
        f.push((name, e))
    }
}

/// The index of the innermost frame binding `name`, or `-1` when no active
/// frame binds it.
pub open spec fn scopes_find_frame(ss: Seq<Seq<(Seq<char>, EntryV)>>, name: Seq<char>) -> int
    decreases ss.len(),
{
    if ss.len() == 0 {
        -1
    } else if frame_find(ss.last(), name) >= 0 {
        ss.len() - 1
    } else {
        scopes_find_frame(ss.drop_last(), name)
    }
}

/// Lexical lookup: the entry bound to `name` in the innermost frame that
/// binds it.
pub open spec fn scopes_lookup(ss: Seq<Seq<(Seq<char>, EntryV)>>, name: Seq<char>) -> Option<
    EntryV,
> {
    let i = scopes_find_frame(ss, name);
    if i >= 0 {
        frame_lookup(ss[i], name)
    } else {
        None
    }
}

/// Declaration: `name` bound to `e` in the innermost frame, shadowing any
/// outer binding. With no frame open, the stack is left as it is.
pub open spec fn scopes_insert(
    ss: Seq<Seq<(Seq<char>, EntryV)>>,
    name: Seq<char>,
    e: EntryV,
) -> Seq<Seq<(Seq<char>, EntryV)>> {
    if ss.len() == 0 {
        ss
    } else {
        ss.update(ss.len() - 1, frame_insert(ss.last(), name, e))
    }
}

/// Assignment: the value of `name` overwritten in the innermost frame that
/// binds it, the declared type kept; nothing when no frame binds it.
pub open spec fn scopes_update(
    ss: Seq<Seq<(Seq<char>, EntryV)>>,
    name: Seq<char>,
    v: ExprV,
) -> Option<Seq<Seq<(Seq<char>, EntryV)>>> {
    let i = scopes_find_frame(ss, name);
    if i >= 0 {
        let f = ss[i];
        let k = frame_find(f, name);
        Some(ss.update(i, f.update(k, (name, EntryV { var_type: f[k].1.var_type, var_value: v }))))
    } else {
        None
    }
}

/// What `frame_find` means: the position of the first binding of `name`, and
/// `-1` exactly when no binding matches.
pub proof fn lemma_frame_find_props(f: Seq<(Seq<char>, EntryV)>, name: Seq<char>)
    ensures
        frame_find(f, name) >= 0 ==> {
            &&& frame_find(f, name) < f.len()
            &&& f[frame_find(f, name)].0 == name
            &&& forall|k: int| 0 <= k < frame_find(f, name) ==> f[k].0 != name
        },
        frame_find(f, name) < 0 ==> forall|k: int| 0 <= k < f.len() ==> f[k].0 != name,
    decreases f.len(),
{
    if f.len() > 0 && f[0].0 != name {
        lemma_frame_find_props(f.drop_first(), name);
        assert(forall|k: int| 1 <= k < f.len() ==> f.drop_first()[k - 1] == f[k]);
    }
}

/// What `scopes_find_frame` means: the innermost frame binding `name`, and
/// `-1` exactly when none does.
pub proof fn lemma_scopes_find_frame_props(ss: Seq<Seq<(Seq<char>, EntryV)>>, name: Seq<char>)
    ensures
        scopes_find_frame(ss, name) >= 0 ==> {
            &&& scopes_find_frame(ss, name) < ss.len()
            &&& frame_find(ss[scopes_find_frame(ss, name)], name) >= 0
            &&& forall|k: int|
                scopes_find_frame(ss, name) < k < ss.len() ==> frame_find(ss[k], name) < 0
        },
        scopes_find_frame(ss, name) < 0 ==> forall|k: int|
            0 <= k < ss.len() ==> frame_find(ss[k], name) < 0,
    decreases ss.len(),
{
    if ss.len() > 0 && frame_find(ss.last(), name) < 0 {
        lemma_scopes_find_frame_props(ss.drop_last(), name);
        assert(forall|k: int| 0 <= k < ss.len() - 1 ==> ss.drop_last()[k] == ss[k]);
    }
}

/// Assignment changes no frame's depth: the updated stack has the same
/// shape as the old one.
pub proof fn lemma_scopes_update_len(ss: Seq<Seq<(Seq<char>, EntryV)>>, name: Seq<char>, v: ExprV)
    ensures
        match scopes_update(ss, name, v) {
            Some(ss2) => ss2.len() == ss.len(),
            None => true,
        },
{
    lemma_scopes_find_frame_props(ss, name);
}


/// Two frames with the same names in the same order are searched alike.
pub proof fn lemma_frame_find_same_names(
    f: Seq<(Seq<char>, EntryV)>,
    g: Seq<(Seq<char>, EntryV)>,
    name: Seq<char>,
)
    requires
        f.len() == g.len(),
        forall|k: int| 0 <= k < f.len() ==> f[k].0 == g[k].0,
    ensures
        frame_find(f, name) == frame_find(g, name),
    decreases f.len(),
{
    if f.len() > 0 && f[0].0 != name {
        assert(forall|k: int|
            0 <= k < f.len() - 1 ==> f.drop_first()[k].0 == g.drop_first()[k].0);
        lemma_frame_find_same_names(f.drop_first(), g.drop_first(), name);
    }
}

/// Overwriting one binding leaves every other name's binding as it was.
pub proof fn lemma_frame_update_other(
    f: Seq<(Seq<char>, EntryV)>,
    k: int,
    e: EntryV,
    name: Seq<char>,
    other: Seq<char>,
)
    requires
        0 <= k < f.len(),
        f[k].0 == name,
        name != other,
    ensures
        frame_lookup(f.update(k, (name, e)), other) == frame_lookup(f, other),
{
    let g = f.update(k, (name, e));
    assert(forall|m: int| 0 <= m < f.len() ==> f[m].0 == g[m].0);
    lemma_frame_find_same_names(f, g, other);
    lemma_frame_find_props(f, other);
}

/// Two stacks whose frames bind `name` alike are looked up alike.
pub proof fn lemma_scopes_lookup_congruent(
    a: Seq<Seq<(Seq<char>, EntryV)>>,
    b: Seq<Seq<(Seq<char>, EntryV)>>,
    name: Seq<char>,
)
    requires
        a.len() == b.len(),
        forall|k: int| 0 <= k < a.len() ==> frame_lookup(a[k], name) == frame_lookup(b[k], name),
    ensures
        scopes_lookup(a, name) == scopes_lookup(b, name),
    decreases a.len(),
{
    if a.len() > 0 {
        assert(frame_lookup(a.last(), name) == frame_lookup(b.last(), name));
        assert(frame_find(a.last(), name) >= 0 <==> frame_lookup(a.last(), name) is Some);
        assert(frame_find(b.last(), name) >= 0 <==> frame_lookup(b.last(), name) is Some);
        if frame_find(a.last(), name) >= 0 {
            assert(scopes_find_frame(a, name) == a.len() - 1);
            assert(scopes_find_frame(b, name) == b.len() - 1);
        } else {
            assert(forall|k: int|
                0 <= k < a.len() - 1 ==> frame_lookup(#[trigger] a.drop_last()[k], name)
                    == frame_lookup(b.drop_last()[k], name));
            lemma_scopes_lookup_congruent(a.drop_last(), b.drop_last(), name);
            lemma_scopes_find_frame_props(a.drop_last(), name);
            lemma_scopes_find_frame_props(b.drop_last(), name);
            assert(scopes_find_frame(a, name) == scopes_find_frame(a.drop_last(), name));
            assert(scopes_find_frame(b, name) == scopes_find_frame(b.drop_last(), name));
            let ia = scopes_find_frame(a.drop_last(), name);
            if ia >= 0 {
                assert(a[ia] == a.drop_last()[ia]);
            }
            let ib = scopes_find_frame(b.drop_last(), name);
            if ib >= 0 {
                assert(b[ib] == b.drop_last()[ib]);
            }
        }
    }
}


} // verus!
