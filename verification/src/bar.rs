//! The bar buffer: an ordered sequence of string slots, one per feed,
//! composed into a single rendered line between configurable padding,
//! with a change-sticky "shown" bit that rations publishes.

use vstd::prelude::*;

use crate::run_of;

verus! {

/// Joining a sequence of slots with a separator between consecutive slots.
pub open spec fn spec_join(slots: Seq<Seq<char>>, sep: Seq<char>) -> Seq<char>
    decreases slots.len(),
{
    if slots.len() == 0 {
        Seq::empty()
    } else if slots.len() == 1 {
        slots[0]
    } else {
        slots[0] + sep + spec_join(slots.drop_first(), sep)
    }
}

/// Appending one more slot extends the join by a separator (when the
/// sequence was non-empty) and the new slot.
pub proof fn lemma_join_push(slots: Seq<Seq<char>>, sep: Seq<char>, x: Seq<char>)
    ensures
        spec_join(slots.push(x), sep) == if slots.len() == 0 {
            x
        } else {
            (spec_join(slots, sep) + sep + x)
        },
    decreases slots.len(),
{
    if slots.len() == 0 {
        assert(slots.push(x).len() == 1);
        assert(spec_join(slots.push(x), sep) == slots.push(x)[0]);
        assert(slots.push(x)[0] == x);
    } else {
        let s2 = slots.push(x);
        assert(s2.len() >= 2);
        assert(s2.drop_first() =~= slots.drop_first().push(x));
        lemma_join_push(slots.drop_first(), sep, x);
        if slots.len() == 1 {
            assert(slots.drop_first().len() == 0);
            assert(spec_join(s2, sep) == s2[0] + sep + x);
            assert(s2[0] == slots[0]);
            assert(spec_join(slots, sep) == slots[0]);
        } else {
            assert(spec_join(s2, sep) == s2[0] + sep + (spec_join(slots.drop_first(), sep) + sep
                + x));
            assert(s2[0] == slots[0]);
            assert(slots[0] + sep + (spec_join(slots.drop_first(), sep) + sep + x) =~= (slots[0]
                + sep + spec_join(slots.drop_first(), sep)) + sep + x);
        }
    }
}

/// `post` is `pre` with slot `pos` replaced by `data` and the bar marked
/// unshown.
pub open spec fn bar_set_at(pre: Bar, post: Bar, pos: int, data: Seq<char>) -> bool {
    &&& post.spec_slots() == pre.spec_slots().update(pos, data)
    &&& post.slots@.len() == pre.slots@.len()
    &&& !post.shown
    &&& post.same_frame(&pre)
}

/// `post` is `pre` with slot `pos` overwritten by a width-preserving run
/// of the expiry character and the bar marked unshown.
pub open spec fn bar_expired_at(pre: Bar, post: Bar, pos: int) -> bool {
    bar_set_at(pre, post, pos, run_of(pre.expire_char, pre.spec_slots()[pos].len()))
}

pub struct Bar {
    pub left_pad: String,
    pub separator: String,
    pub right_pad: String,
    pub clear_char: char,
    pub expire_char: char,
    pub shown: bool,
    pub slots: Vec<String>,
}

impl Bar {
    /// The sequence of slot contents, as character sequences.
    pub open spec fn spec_slots(&self) -> Seq<Seq<char>> {
        self.slots@.map_values(|s: String| s@)
    }

    /// The composed line: left padding, slots joined by the separator,
    /// right padding.
    pub open spec fn spec_show(&self) -> Seq<char> {
        self.left_pad@ + spec_join(self.spec_slots(), self.separator@) + self.right_pad@
    }

    /// All fields except the slots and the shown bit are equal.
    pub open spec fn same_frame(&self, other: &Self) -> bool {
        &&& self.left_pad@ == other.left_pad@
        &&& self.separator@ == other.separator@
        &&& self.right_pad@ == other.right_pad@
        &&& self.clear_char == other.clear_char
        &&& self.expire_char == other.expire_char
    }

    pub fn new(
        n: usize,
        left_pad: &str,
        separator: &str,
        right_pad: &str,
        clear_char: char,
        expire_char: char,
    ) -> (bar: Self)
        ensures
            bar.left_pad@ == left_pad@,
            bar.separator@ == separator@,
            bar.right_pad@ == right_pad@,
            bar.clear_char == clear_char,
            bar.expire_char == expire_char,
            !bar.shown,
            bar.slots@.len() == n,
            forall|i: int| 0 <= i < n ==> bar.spec_slots()[i] == Seq::<char>::empty(),
    {
        let mut slots: Vec<String> = Vec::new();
        let mut k: usize = 0;
        while k < n
            invariant
                k <= n,
                slots@.len() == k,
                forall|i: int| 0 <= i < k ==> slots@[i]@ == Seq::<char>::empty(),
            decreases n - k,
        {
            slots.push(String::new());
            k = k + 1;
        }
        Self {
            left_pad: left_pad.to_owned(),
            separator: separator.to_owned(),
            right_pad: right_pad.to_owned(),
            clear_char,
            expire_char,
            shown: false,
            slots,
        }
    }

    /// One empty slot per configured feed, padding and separator from the
    /// configuration, spaces for cleared slots.
    pub fn from_conf(conf: &crate::conf::Conf) -> (bar: Self)
        ensures
            bar.left_pad@ == conf.pad_left@,
            bar.separator@ == conf.sep@,
            bar.right_pad@ == conf.pad_right@,
            bar.clear_char == ' ',
            bar.expire_char == conf.expiry_character,
            !bar.shown,
            bar.slots@.len() == conf.feeds@.len(),
            forall|i: int| 0 <= i < conf.feeds@.len() ==> bar.spec_slots()[i] == Seq::<char>::empty(),
    {
        let n = conf.feeds.len();
        Self::new(
            n,
            conf.pad_left.as_str(),
            conf.sep.as_str(),
            conf.pad_right.as_str(),
            ' ',
            conf.expiry_character,
        )
    }

    /// Replaces slot `i` with `data` and marks the bar unshown.
    pub fn set(&mut self, i: usize, data: &str)
        requires
            i < old(self).slots@.len(),
        ensures
            final(self).spec_slots() == old(self).spec_slots().update(i as int, data@),
            final(self).slots@.len() == old(self).slots@.len(),
            !final(self).shown,
            final(self).same_frame(old(self)),
    {
        self.slots.set(i, data.to_owned());
        self.shown = false;
        assert(self.spec_slots() =~= old(self).spec_slots().update(i as int, data@));
    }

    /// Overwrites slot `i` with a run of `c` of the same character count,
    /// preserving the slot's visual width.
    fn overwrite(&mut self, i: usize, c: char)
        requires
            i < old(self).slots@.len(),
        ensures
            final(self).spec_slots() == old(self).spec_slots().update(
                i as int,
                run_of(c, old(self).spec_slots()[i as int].len()),
            ),
            final(self).spec_slots()[i as int].len() == old(self).spec_slots()[i as int].len(),
            final(self).slots@.len() == old(self).slots@.len(),
            !final(self).shown,
            final(self).same_frame(old(self)),
    {
        let n = self.slots[i].as_str().unicode_len();
        proof {
            crate::lemma_run_of_len(c, n as nat);
        }
        let filler = crate::char_run(c, n);
        self.set(i, filler.as_str());
    }

    /// Overwrites slot `i` with clear characters, keeping its width.
    pub fn clear(&mut self, i: usize)
        requires
            i < old(self).slots@.len(),
        ensures
            final(self).spec_slots() == old(self).spec_slots().update(
                i as int,
                run_of(old(self).clear_char, old(self).spec_slots()[i as int].len()),
            ),
            final(self).spec_slots()[i as int].len() == old(self).spec_slots()[i as int].len(),
            final(self).slots@.len() == old(self).slots@.len(),
            !final(self).shown,
            final(self).same_frame(old(self)),
    {
        self.overwrite(i, self.clear_char)
    }

    /// Overwrites slot `i` with expiry characters, keeping its width.
    pub fn expire(&mut self, i: usize)
        requires
            i < old(self).slots@.len(),
        ensures
            final(self).spec_slots() == old(self).spec_slots().update(
                i as int,
                run_of(old(self).expire_char, old(self).spec_slots()[i as int].len()),
            ),
            final(self).spec_slots()[i as int].len() == old(self).spec_slots()[i as int].len(),
            final(self).slots@.len() == old(self).slots@.len(),
            !final(self).shown,
            final(self).same_frame(old(self)),
    {
        self.overwrite(i, self.expire_char)
    }

    /// Clears every slot.
    pub fn clear_all(&mut self)
        ensures
            final(self).slots@.len() == old(self).slots@.len(),
            forall|i: int|
                0 <= i < old(self).slots@.len() ==> final(self).spec_slots()[i] == run_of(
                    old(self).clear_char,
                    old(self).spec_slots()[i].len(),
                ),
            old(self).slots@.len() > 0 ==> !final(self).shown,
            old(self).slots@.len() == 0 ==> *final(self) == *old(self),
            final(self).same_frame(old(self)),
    {
        let n = self.slots.len();
        let mut i: usize = 0;
        while i < n
            invariant
                i <= n,
                n == self.slots@.len(),
                self.same_frame(old(self)),
                self.clear_char == old(self).clear_char,
                i == 0 ==> self == old(self),
                i > 0 ==> !self.shown,
                forall|j: int|
                    0 <= j < i ==> self.spec_slots()[j] == run_of(
                        old(self).clear_char,
                        old(self).spec_slots()[j].len(),
                    ),
                forall|j: int| i <= j < n ==> self.spec_slots()[j] == old(self).spec_slots()[j],
            decreases n - i,
        {
            self.clear(i);
            i = i + 1;
        }
    }

    /// Composes the rendered line without touching the shown bit.
    pub fn show(&self) -> (r: String)
        ensures
            r@ == self.spec_show(),
    {
        let mut r = self.left_pad.clone();
        let mut i: usize = 0;
        let n = self.slots.len();
        while i < n
            invariant
                i <= n,
                n == self.slots@.len(),
                r@ == self.left_pad@ + spec_join(self.spec_slots().take(i as int), self.separator@),
            decreases n - i,
        {
            if i > 0 {
                r.append(self.separator.as_str());
            }
            r.append(self.slots[i].as_str());
            proof {
                let pre = self.spec_slots().take(i as int);
                lemma_join_push(pre, self.separator@, self.spec_slots()[i as int]);
                assert(self.spec_slots().take(i + 1) =~= pre.push(self.spec_slots()[i as int]));
                if i > 0 {
                    assert(r@ =~= self.left_pad@ + spec_join(self.spec_slots().take(i + 1),
                        self.separator@));
                } else {
                    assert(pre.len() == 0);
                    assert(r@ =~= self.left_pad@ + spec_join(self.spec_slots().take(i + 1),
                        self.separator@));
                }
            }
            i = i + 1;
        }
        proof {
            assert(self.spec_slots().take(n as int) =~= self.spec_slots());
        }
        r.append(self.right_pad.as_str());
        r
    }

    /// The abstract state of this bar.
    pub open spec fn model(&self) -> BarModel {
        BarModel {
            left_pad: self.left_pad@,
            separator: self.separator@,
            right_pad: self.right_pad@,
            clear_char: self.clear_char,
            expire_char: self.expire_char,
            shown: self.shown,
            slots: self.spec_slots(),
        }
    }

    /// Returns the composed line and marks the bar shown, exactly once per
    /// mutation cluster: `Some` when a mutation happened since the last call
    /// that returned `Some`, `None` otherwise.
    pub fn show_unshown(&mut self) -> (r: Option<String>)
        ensures
            old(self).shown ==> r is None && *final(self) == *old(self),
            !old(self).shown ==> {
                &&& r matches Some(data) && data@ == old(self).spec_show()
                &&& *final(self) == (Bar { shown: true, ..*old(self) })
            },
    {
        if self.shown {
            None
        } else {
            self.shown = true;
            let data = self.show();
            Some(data)
        }
    }
}

/// The abstract bar state: what the operations below read and write.
pub struct BarModel {
    pub left_pad: Seq<char>,
    pub separator: Seq<char>,
    pub right_pad: Seq<char>,
    pub clear_char: char,
    pub expire_char: char,
    pub shown: bool,
    pub slots: Seq<Seq<char>>,
}

/// One bar operation, for stating properties of operation sequences.
pub enum BarOp {
    SetSlot { i: int, data: Seq<char> },
    ClearSlot { i: int },
    ExpireSlot { i: int },
    ShowIfDirty,
}

/// Whether `op` mutates a slot.
pub open spec fn is_mutation(op: BarOp) -> bool {
    !(op is ShowIfDirty)
}

/// The abstract effect of one operation.
pub open spec fn bar_op_apply(m: BarModel, op: BarOp) -> BarModel {
    match op {
        BarOp::SetSlot { i, data } => BarModel { slots: m.slots.update(i, data), shown: false, ..m },
        BarOp::ClearSlot { i } => BarModel {
            slots: m.slots.update(i, run_of(m.clear_char, m.slots[i].len())),
            shown: false,
            ..m
        },
        BarOp::ExpireSlot { i } => BarModel {
            slots: m.slots.update(i, run_of(m.expire_char, m.slots[i].len())),
            shown: false,
            ..m
        },
        BarOp::ShowIfDirty => BarModel { shown: true, ..m },
    }
}

/// What a show-if-dirty operation returns in state `m`.
pub open spec fn show_result(m: BarModel) -> Option<Seq<char>> {
    if m.shown {
        None
    } else {
        Some(m.left_pad + spec_join(m.slots, m.separator) + m.right_pad)
    }
}

/// The abstract state after running `ops` from `m`, first to last.
pub open spec fn bar_run(m: BarModel, ops: Seq<BarOp>) -> BarModel
    decreases ops.len(),
{
    if ops.len() == 0 {
        m
    } else {
        bar_op_apply(bar_run(m, ops.drop_last()), ops.last())
    }
}

/// Dirty stickiness. Starting just after a show-if-dirty returned the
/// composed line (so the bar is shown), run any sequence of mutations:
/// the next show-if-dirty returns the line again exactly when at least
/// one mutation occurred in between, and returns nothing exactly when
/// none did.
pub proof fn lemma_dirty_stickiness(m0: BarModel, ops: Seq<BarOp>)
    requires
        m0.shown,
        forall|k: int| 0 <= k < ops.len() ==> is_mutation(#[trigger] ops[k]),
    ensures
        show_result(bar_run(m0, ops)) is Some <==> exists|k: int|
            0 <= k < ops.len() && is_mutation(#[trigger] ops[k]),
    decreases ops.len(),
{
    if ops.len() > 0 {
        lemma_dirty_stickiness(m0, ops.drop_last());
        assert(is_mutation(ops[ops.len() - 1]));
        assert(!bar_op_apply(bar_run(m0, ops.drop_last()), ops.last()).shown);
    }
}

/// `Bar::set` performs one abstract `Set` step.
pub proof fn lemma_set_is_step(pre: Bar, post: Bar, i: int, data: Seq<char>)
    requires
        0 <= i < pre.slots@.len(),
        bar_set_at(pre, post, i, data),
    ensures
        post.model() == bar_op_apply(pre.model(), BarOp::SetSlot { i, data }),
{
}

/// `Bar::clear` performs one abstract `Clear` step.
pub proof fn lemma_clear_is_step(pre: Bar, post: Bar, i: int)
    requires
        0 <= i < pre.slots@.len(),
        bar_set_at(pre, post, i, run_of(pre.clear_char, pre.spec_slots()[i].len())),
    ensures
        post.model() == bar_op_apply(pre.model(), BarOp::ClearSlot { i }),
{
}

/// `Bar::expire` performs one abstract `Expire` step.
pub proof fn lemma_expire_is_step(pre: Bar, post: Bar, i: int)
    requires
        0 <= i < pre.slots@.len(),
        bar_expired_at(pre, post, i),
    ensures
        post.model() == bar_op_apply(pre.model(), BarOp::ExpireSlot { i }),
{
}

/// `Bar::show_unshown` performs one abstract `ShowIfDirty` step and
/// returns what `show_result` gives in the pre-state.
pub proof fn lemma_show_unshown_is_step(pre: Bar, post: Bar, r: Option<Seq<char>>)
    requires
        pre.shown ==> r is None && post == pre,
        !pre.shown ==> (r matches Some(data) && data == pre.spec_show() && post == (Bar {
            shown: true,
            ..pre
        })),
    ensures
        post.model() == bar_op_apply(pre.model(), BarOp::ShowIfDirty),
        r == show_result(pre.model()),
{
}

} // verus!
