//! The steps that switch the overlays of an EFI board's boot entry, and
//! the steps that undo them when one fails: overlays being switched on are
//! moved into place before the entry is rewritten, overlays being switched
//! off are moved away after it, and a failure undoes what was done, newest
//! first, and puts the old entry back.
use vstd::prelude::*;

verus! {

/// The points at which a transaction reports its progress.
#[derive(Debug, Clone, Copy, PartialEq, Eq, Structural)]
pub enum Stage {
    Enabled,
    Entry,
    Disabled,
}

/// One step of a transaction. A rename moves file `i` of the planned moves
/// from its old name to its new one.
#[derive(Debug, Clone, Copy, PartialEq, Eq, Structural)]
pub enum TxStep {
    /// Write the base device tree the entry will name, which is not there yet.
    CreateBase,
    Rename(usize),
    SyncDirectory,
    Checkpoint(Stage),
    /// Replace the boot entry by its new text.
    WriteEntry,
    /// Read the entry back and compare it with its new text.
    VerifyEntry,
}

/// One step of undoing a failed transaction.
#[derive(Debug, Clone, Copy, PartialEq, Eq, Structural)]
pub enum Undo {
    /// Move file `i` of the planned moves back to its old name.
    RenameBack(usize),
    /// Put the old text of the boot entry back.
    RestoreEntry,
    /// Remove the base device tree the transaction created.
    RemoveBase,
}

/// The renames of the moves among the first `n` whose kind is `want`
/// (`true` for a move that switches an overlay on), in order.
pub open spec fn renames_upto(enables: Seq<bool>, want: bool, n: int) -> Seq<TxStep>
    decreases n,
{
    if n <= 0 {
        seq![]
    } else {
        renames_upto(enables, want, n - 1) + (if enables[n - 1] == want {
            seq![TxStep::Rename((n - 1) as usize)]
        } else {
            seq![]
        })
    }
}

/// The steps of a transaction whose planned moves switch overlays on or
/// off (`enables`): the base device tree when it is missing, the moves that
/// switch overlays on, a sync, the entry, the moves that switch overlays
/// off, a sync, and the read-back of the entry, with a checkpoint after
/// each phase.
pub open spec fn transaction_spec(base_exists: bool, enables: Seq<bool>) -> Seq<TxStep> {
    (if base_exists {
        seq![]
    } else {
        seq![TxStep::CreateBase]
    }) + renames_upto(enables, true, enables.len() as int) + seq![
        TxStep::SyncDirectory,
        TxStep::Checkpoint(Stage::Enabled),
        TxStep::WriteEntry,
        TxStep::Checkpoint(Stage::Entry),
    ] + renames_upto(enables, false, enables.len() as int) + seq![
        TxStep::SyncDirectory,
        TxStep::Checkpoint(Stage::Disabled),
        TxStep::VerifyEntry,
    ]
}

/// The moves the renames among `steps` carried out, in order.
pub open spec fn done_moves(steps: Seq<TxStep>) -> Seq<usize>
    decreases steps.len(),
{
    if steps.len() == 0 {
        seq![]
    } else {
        done_moves(steps.drop_last()) + match steps.last() {
            TxStep::Rename(i) => seq![i],
            _ => seq![],
        }
    }
}

/// Moving back the moves of `moves` whose kind is `want`, newest first.
pub open spec fn undo_renames(moves: Seq<usize>, enables: Seq<bool>, want: bool) -> Seq<Undo>
    decreases moves.len(),
{
    if moves.len() == 0 {
        seq![]
    } else {
        (if enables[moves.last() as int] == want {
            seq![Undo::RenameBack(moves.last())]
        } else {
            seq![]
        }) + undo_renames(moves.drop_last(), enables, want)
    }
}

/// Undoing a transaction whose step `failed_at` of `steps` failed, in two
/// parts. The first moves back the overlays switched off, newest first,
/// and puts the old entry back when it was being written; the second,
/// carried out only when the first fully succeeded, moves back the
/// overlays switched on, newest first, and removes the base device tree
/// the transaction was creating.
pub open spec fn rollback_spec(steps: Seq<TxStep>, enables: Seq<bool>, failed_at: int) -> (Seq<Undo>, Seq<Undo>) {
    let moves = done_moves(steps.take(failed_at));
    let reached = steps.take(failed_at + 1);
    (
        undo_renames(moves, enables, false) + (if reached.contains(TxStep::WriteEntry) {
            seq![Undo::RestoreEntry]
        } else {
            seq![]
        }),
        undo_renames(moves, enables, true) + (if reached.contains(TxStep::CreateBase) {
            seq![Undo::RemoveBase]
        } else {
            seq![]
        }),
    )
}

fn push_renames(out: &mut Vec<TxStep>, enables: &Vec<bool>, want: bool)
    ensures
        final(out)@ == old(out)@ + renames_upto(enables@, want, enables@.len() as int),
{
    let ghost start = out@;
    let mut i: usize = 0;
    while i < enables.len()
        invariant
            i <= enables.len(),
            out@ == start + renames_upto(enables@, want, i as int),
        decreases enables.len() - i,
    {
        if enables[i] == want {
            out.push(TxStep::Rename(i));
        }
        assert(out@ =~= start + renames_upto(enables@, want, i + 1));
        i = i + 1;
    }
}

/// The steps of a transaction (see [`transaction_spec`]); `enables` says of
/// each planned move whether it switches an overlay on.
pub fn transaction_steps(base_exists: bool, enables: &Vec<bool>) -> (r: Vec<TxStep>)
    ensures
        r@ == transaction_spec(base_exists, enables@),
{
    let mut r: Vec<TxStep> = Vec::new();
    if !base_exists {
        r.push(TxStep::CreateBase);
    }
    push_renames(&mut r, enables, true);
    r.push(TxStep::SyncDirectory);
    r.push(TxStep::Checkpoint(Stage::Enabled));
    r.push(TxStep::WriteEntry);
    r.push(TxStep::Checkpoint(Stage::Entry));
    push_renames(&mut r, enables, false);
    r.push(TxStep::SyncDirectory);
    r.push(TxStep::Checkpoint(Stage::Disabled));
    r.push(TxStep::VerifyEntry);
    assert(r@ =~= transaction_spec(base_exists, enables@));
    r
}

fn reaches(steps: &Vec<TxStep>, upto: usize, x: TxStep) -> (r: bool)
    requires
        upto <= steps@.len(),
    ensures
        r == steps@.take(upto as int).contains(x),
{
    let mut i: usize = 0;
    while i < upto
        invariant
            i <= upto <= steps@.len(),
            forall|j: int| 0 <= j < i ==> steps@[j] != x,
        decreases upto - i,
    {
        if steps[i] == x {
            assert(steps@.take(upto as int)[i as int] == x);
            return true;
        }
        i = i + 1;
    }
    proof {
        if steps@.take(upto as int).contains(x) {
            let j = choose|j: int| 0 <= j < upto && steps@.take(upto as int)[j] == x;
            assert(steps@[j] == x);
        }
    }
    false
}

fn undo_kind(moves: &Vec<usize>, enables: &Vec<bool>, want: bool) -> (r: Vec<Undo>)
    requires
        forall|k: int| 0 <= k < moves@.len() ==> #[trigger] moves@[k] < enables@.len(),
    ensures
        r@ == undo_renames(moves@, enables@, want),
{
    let mut r: Vec<Undo> = Vec::new();
    let mut j = moves.len();
    assert(moves@.take(j as int) =~= moves@);
    while j > 0
        invariant
            j <= moves@.len(),
            forall|k: int| 0 <= k < moves@.len() ==> #[trigger] moves@[k] < enables@.len(),
            r@ + undo_renames(moves@.take(j as int), enables@, want) == undo_renames(moves@, enables@, want),
        decreases j,
    {
        let m = moves[j - 1];
        let ghost before = r@;
        assert(moves@.take(j as int).drop_last() =~= moves@.take(j - 1));
        assert(moves@.take(j as int).last() == m);
        if enables[m] == want {
            r.push(Undo::RenameBack(m));
        }
        assert(r@ + undo_renames(moves@.take(j - 1), enables@, want) =~= before + undo_renames(
            moves@.take(j as int),
            enables@,
            want,
        ));
        j = j - 1;
    }
    assert(undo_renames(moves@.take(0), enables@, want) =~= Seq::<Undo>::empty());
    assert(r@ =~= undo_renames(moves@, enables@, want));
    r
}

/// The steps that undo a transaction whose step `failed_at` failed (see
/// [`rollback_spec`]).
pub fn rollback_steps(steps: &Vec<TxStep>, enables: &Vec<bool>, failed_at: usize) -> (r: (Vec<Undo>, Vec<Undo>))
    requires
        failed_at < steps@.len(),
        forall|k: int| 0 <= k < steps@.len() ==> (#[trigger] steps@[k] matches TxStep::Rename(i) ==> i
            < enables@.len()),
    ensures
        (r.0@, r.1@) == rollback_spec(steps@, enables@, failed_at as int),
{
    let mut moves: Vec<usize> = Vec::new();
    let mut i: usize = 0;
    assert(steps@.take(0) =~= Seq::<TxStep>::empty());
    while i < failed_at
        invariant
            i <= failed_at < steps@.len(),
            moves@ == done_moves(steps@.take(i as int)),
            forall|k: int| 0 <= k < steps@.len() ==> (#[trigger] steps@[k] matches TxStep::Rename(x) ==> x
                < enables@.len()),
            forall|k: int| 0 <= k < moves@.len() ==> #[trigger] moves@[k] < enables@.len(),
        decreases failed_at - i,
    {
        assert(steps@.take(i + 1).drop_last() =~= steps@.take(i as int));
        assert(steps@.take(i + 1).last() == steps@[i as int]);
        match steps[i] {
            TxStep::Rename(x) => {
                moves.push(x);
            },
            _ => {},
        }
        assert(moves@ =~= done_moves(steps@.take(i + 1)));
        i = i + 1;
    }
    let n = steps.len();
    assert(failed_at < n);
    let entry = reaches(steps, failed_at + 1, TxStep::WriteEntry);
    let base = reaches(steps, failed_at + 1, TxStep::CreateBase);
    let mut first = undo_kind(&moves, enables, false);
    if entry {
        first.push(Undo::RestoreEntry);
    }
    let mut second = undo_kind(&moves, enables, true);
    if base {
        second.push(Undo::RemoveBase);
    }
    proof {
        let rs = rollback_spec(steps@, enables@, failed_at as int);
        assert(first@ =~= rs.0);
        assert(second@ =~= rs.1);
    }
    (first, second)
}

/// The order in which the first `done` renames of a batch are moved back
/// when a later step fails: newest first.
pub fn undo_order(done: usize) -> (r: Vec<usize>)
    ensures
        r@.len() == done,
        forall|i: int| 0 <= i < done ==> #[trigger] r@[i] == done - 1 - i,
{
    let mut r: Vec<usize> = Vec::new();
    let mut k = done;
    while k > 0
        invariant
            k <= done,
            r@.len() == done - k,
            forall|i: int| 0 <= i < r@.len() ==> #[trigger] r@[i] == done - 1 - i,
        decreases k,
    {
        k = k - 1;
        r.push(k);
    }
    r
}

// ----------------------------------------------------------------------
// The law of the rollback
// ----------------------------------------------------------------------

/// The moves the rename-backs among `u` undo, in order.
pub open spec fn moved_back(u: Seq<Undo>) -> Seq<usize>
    decreases u.len(),
{
    if u.len() == 0 {
        seq![]
    } else {
        (match u[0] {
            Undo::RenameBack(i) => seq![i],
            _ => seq![],
        }) + moved_back(u.drop_first())
    }
}

/// `s` backwards.
pub open spec fn backwards(s: Seq<usize>) -> Seq<usize>
    decreases s.len(),
{
    if s.len() == 0 {
        seq![]
    } else {
        seq![s.last()] + backwards(s.drop_last())
    }
}

/// Once a move that switches an overlay off appears, every later one does
/// too.
pub open spec fn enables_first(m: Seq<usize>, enables: Seq<bool>) -> bool {
    forall|a: int, b: int| 0 <= a < b < m.len() && !enables[#[trigger] m[a] as int] ==> !enables[#[trigger] m[b] as int]
}

proof fn lemma_moved_back_single(u: Undo)
    ensures
        moved_back(seq![u]) == (match u {
            Undo::RenameBack(i) => seq![i],
            _ => Seq::<usize>::empty(),
        }),
{
    let s = seq![u];
    assert(s.drop_first() =~= Seq::<Undo>::empty());
    assert(moved_back(s.drop_first()) == Seq::<usize>::empty());
    assert(s[0] == u);
    assert(moved_back(s) =~= (match u {
        Undo::RenameBack(i) => seq![i],
        _ => Seq::<usize>::empty(),
    }));
}

proof fn lemma_moved_back_append(a: Seq<Undo>, b: Seq<Undo>)
    ensures
        moved_back(a + b) == moved_back(a) + moved_back(b),
    decreases a.len(),
{
    if a.len() == 0 {
        assert(a + b =~= b);
    } else {
        assert((a + b).drop_first() =~= a.drop_first() + b);
        lemma_moved_back_append(a.drop_first(), b);
        assert(moved_back(a) + moved_back(b) =~= (match a[0] {
            Undo::RenameBack(i) => seq![i],
            _ => seq![],
        }) + (moved_back(a.drop_first()) + moved_back(b)));
    }
}

proof fn lemma_undo_all_enabling(m: Seq<usize>, enables: Seq<bool>)
    requires
        forall|k: int| 0 <= k < m.len() ==> enables[#[trigger] m[k] as int],
    ensures
        undo_renames(m, enables, false) == Seq::<Undo>::empty(),
    decreases m.len(),
{
    if m.len() > 0 {
        assert(enables[m[m.len() - 1] as int]);
        lemma_undo_all_enabling(m.drop_last(), enables);
        assert(undo_renames(m, enables, false) =~= Seq::<Undo>::empty());
    }
}

proof fn lemma_undo_split(m: Seq<usize>, enables: Seq<bool>)
    requires
        enables_first(m, enables),
    ensures
        moved_back(undo_renames(m, enables, false)) + moved_back(undo_renames(m, enables, true)) == backwards(m),
    decreases m.len(),
{
    if m.len() == 0 {
        assert(moved_back(Seq::<Undo>::empty()) =~= Seq::<usize>::empty());
    } else {
        let x = m.last();
        let rest = m.drop_last();
        assert(enables_first(rest, enables)) by {
            assert forall|a: int, b: int| 0 <= a < b < rest.len() && !enables[#[trigger] rest[a] as int] implies !enables[#[trigger] rest[b] as int] by {
                assert(rest[a] == m[a] && rest[b] == m[b]);
            }
        }
        lemma_undo_split(rest, enables);
        let f = undo_renames(rest, enables, false);
        let t = undo_renames(rest, enables, true);
        if enables[x as int] {
            assert forall|k: int| 0 <= k < rest.len() implies enables[#[trigger] rest[k] as int] by {
                if !enables[rest[k] as int] {
                    assert(rest[k] == m[k]);
                    assert(m[m.len() - 1] == x);
                }
            }
            lemma_undo_all_enabling(rest, enables);
            assert(undo_renames(m, enables, false) =~= f);
            assert(undo_renames(m, enables, true) =~= seq![Undo::RenameBack(x)] + t);
            lemma_moved_back_append(seq![Undo::RenameBack(x)], t);
            lemma_moved_back_single(Undo::RenameBack(x));
            assert(moved_back(f) =~= Seq::<usize>::empty()) by {
                assert(f =~= Seq::<Undo>::empty());
            }
            assert(backwards(m) =~= seq![x] + backwards(rest));
        } else {
            assert(undo_renames(m, enables, false) =~= seq![Undo::RenameBack(x)] + f);
            assert(undo_renames(m, enables, true) =~= t);
            lemma_moved_back_append(seq![Undo::RenameBack(x)], f);
            lemma_moved_back_single(Undo::RenameBack(x));
            assert(backwards(m) =~= seq![x] + backwards(rest));
        }
    }
}

/// Once a rename that switches an overlay off appears among the steps,
/// every later rename switches one off too.
pub open spec fn steps_enables_first(steps: Seq<TxStep>, enables: Seq<bool>) -> bool {
    forall|a: int, b: int|
        0 <= a < b < steps.len() && (#[trigger] steps[a] matches TxStep::Rename(i) && !enables[i as int])
            && (#[trigger] steps[b] matches TxStep::Rename(j)) ==> !enables[steps[b]->Rename_0 as int]
}

proof fn lemma_done_moves_from(steps: Seq<TxStep>, y: usize) -> (a: int)
    requires
        done_moves(steps).contains(y),
    ensures
        0 <= a < steps.len(),
        steps[a] == TxStep::Rename(y),
    decreases steps.len(),
{
    let rest = steps.drop_last();
    let d = done_moves(rest);
    if d.contains(y) {
        let a = lemma_done_moves_from(rest, y);
        a
    } else {
        let k = choose|k: int| 0 <= k < done_moves(steps).len() && done_moves(steps)[k] == y;
        assert(k >= d.len());
        (steps.len() - 1) as int
    }
}

proof fn lemma_done_moves_order(steps: Seq<TxStep>, enables: Seq<bool>)
    requires
        steps_enables_first(steps, enables),
    ensures
        enables_first(done_moves(steps), enables),
    decreases steps.len(),
{
    if steps.len() > 0 {
        let rest = steps.drop_last();
        assert(steps_enables_first(rest, enables)) by {
            assert forall|a: int, b: int|
                0 <= a < b < rest.len() && (#[trigger] rest[a] matches TxStep::Rename(i) && !enables[i as int])
                    && (#[trigger] rest[b] matches TxStep::Rename(j)) implies !enables[rest[b]->Rename_0 as int] by {
                assert(rest[a] == steps[a] && rest[b] == steps[b]);
            }
        }
        lemma_done_moves_order(rest, enables);
        let d = done_moves(rest);
        match steps.last() {
            TxStep::Rename(x) => {
                let m = done_moves(steps);
                assert(m =~= d.push(x));
                assert forall|a: int, b: int| 0 <= a < b < m.len() && !enables[#[trigger] m[a] as int] implies !enables[#[trigger] m[b] as int] by {
                    if b == m.len() - 1 {
                        assert(d.contains(m[a])) by {
                            assert(d[a] == m[a]);
                        }
                        let p = lemma_done_moves_from(rest, m[a]);
                        assert(steps[p] == rest[p]);
                        assert(steps[steps.len() - 1] == TxStep::Rename(x));
                    } else {
                        assert(m[a] == d[a] && m[b] == d[b]);
                    }
                }
            },
            _ => {
                assert(done_moves(steps) =~= d);
            },
        }
    }
}

proof fn lemma_renames_kind(enables: Seq<bool>, want: bool, n: int, k: int)
    requires
        0 <= n <= enables.len() <= usize::MAX,
        0 <= k < renames_upto(enables, want, n).len(),
    ensures
        renames_upto(enables, want, n)[k] matches TxStep::Rename(i) && 0 <= i < n && enables[i as int] == want,
    decreases n,
{
    if n > 0 {
        let prev = renames_upto(enables, want, n - 1);
        if k < prev.len() {
            lemma_renames_kind(enables, want, n - 1, k);
            assert(renames_upto(enables, want, n)[k] == prev[k]);
        } else {
            assert(renames_upto(enables, want, n)[k] == TxStep::Rename((n - 1) as usize));
        }
    }
}

proof fn lemma_transaction_order(base_exists: bool, enables: Seq<bool>)
    requires
        enables.len() <= usize::MAX,
    ensures
        steps_enables_first(transaction_spec(base_exists, enables), enables),
{
    let n = enables.len() as int;
    let p: Seq<TxStep> = if base_exists { seq![] } else { seq![TxStep::CreateBase] };
    let on = renames_upto(enables, true, n);
    let mid = seq![
        TxStep::SyncDirectory,
        TxStep::Checkpoint(Stage::Enabled),
        TxStep::WriteEntry,
        TxStep::Checkpoint(Stage::Entry),
    ];
    let off = renames_upto(enables, false, n);
    let tail = seq![TxStep::SyncDirectory, TxStep::Checkpoint(Stage::Disabled), TxStep::VerifyEntry];
    let s = transaction_spec(base_exists, enables);
    let lo = p.len() + on.len() + mid.len();
    let hi = lo + off.len();
    assert(s =~= p + on + mid + off + tail);
    assert forall|a: int, b: int|
        0 <= a < b < s.len() && (#[trigger] s[a] matches TxStep::Rename(i) && !enables[i as int])
            && (#[trigger] s[b] matches TxStep::Rename(j)) implies !enables[s[b]->Rename_0 as int] by {
        // A rename lies in `on` or `off`; one that switches an overlay off
        // lies in `off`, which only such renames follow.
        if a < p.len() {
            assert(s[a] == p[a]);
        } else if a < p.len() + on.len() {
            assert(s[a] == on[a - p.len()]);
            lemma_renames_kind(enables, true, n, a - p.len());
        } else if a < lo {
            assert(s[a] == mid[a - p.len() - on.len()]);
        }
        if b >= hi {
            assert(s[b] == tail[b - hi]);
        } else {
            assert(s[b] == off[b - lo]);
            lemma_renames_kind(enables, false, n, b - lo);
        }
    }
}

/// A failed transaction is undone whatever step failed: the rename-backs of
/// its two parts move back exactly the moves that were carried out, newest
/// first; the old entry is put back whenever the new one was being
/// written; and the base device tree is removed whenever the transaction
/// was creating it.
pub proof fn law_rollback_undoes_completed_moves_newest_first(
    base_exists: bool,
    enables: Seq<bool>,
    failed_at: int,
)
    requires
        enables.len() <= usize::MAX,
        0 <= failed_at < transaction_spec(base_exists, enables).len(),
    ensures
        ({
            let steps = transaction_spec(base_exists, enables);
            let (first, second) = rollback_spec(steps, enables, failed_at);
            &&& moved_back(first) + moved_back(second) == backwards(done_moves(steps.take(failed_at)))
            &&& first.contains(Undo::RestoreEntry) <==> steps.take(failed_at + 1).contains(TxStep::WriteEntry)
            &&& second.contains(Undo::RemoveBase) <==> steps.take(failed_at + 1).contains(TxStep::CreateBase)
        }),
{
    let steps = transaction_spec(base_exists, enables);
    lemma_transaction_order(base_exists, enables);
    let pre = steps.take(failed_at);
    assert(steps_enables_first(pre, enables)) by {
        assert forall|a: int, b: int|
            0 <= a < b < pre.len() && (#[trigger] pre[a] matches TxStep::Rename(i) && !enables[i as int])
                && (#[trigger] pre[b] matches TxStep::Rename(j)) implies !enables[pre[b]->Rename_0 as int] by {
            assert(pre[a] == steps[a] && pre[b] == steps[b]);
        }
    }
    lemma_done_moves_order(pre, enables);
    let m = done_moves(pre);
    lemma_undo_split(m, enables);
    let f = undo_renames(m, enables, false);
    let t = undo_renames(m, enables, true);
    let entry: Seq<Undo> = if steps.take(failed_at + 1).contains(TxStep::WriteEntry) {
        seq![Undo::RestoreEntry]
    } else {
        seq![]
    };
    let base: Seq<Undo> = if steps.take(failed_at + 1).contains(TxStep::CreateBase) {
        seq![Undo::RemoveBase]
    } else {
        seq![]
    };
    lemma_moved_back_append(f, entry);
    lemma_moved_back_append(t, base);
    lemma_moved_back_single(Undo::RestoreEntry);
    lemma_moved_back_single(Undo::RemoveBase);
    assert(moved_back(Seq::<Undo>::empty()) == Seq::<usize>::empty());
    assert(moved_back(entry) =~= Seq::<usize>::empty());
    assert(moved_back(base) =~= Seq::<usize>::empty());
    lemma_only_renames_in_undo(m, enables, false, Undo::RestoreEntry);
    lemma_only_renames_in_undo(m, enables, true, Undo::RemoveBase);
    if steps.take(failed_at + 1).contains(TxStep::WriteEntry) {
        assert((f + entry)[f.len() as int] == Undo::RestoreEntry);
    } else {
        assert(f + entry =~= f);
    }
    if steps.take(failed_at + 1).contains(TxStep::CreateBase) {
        assert((t + base)[t.len() as int] == Undo::RemoveBase);
    } else {
        assert(t + base =~= t);
    }
}

proof fn lemma_only_renames_in_undo(m: Seq<usize>, enables: Seq<bool>, want: bool, x: Undo)
    requires
        !(x is RenameBack),
    ensures
        !undo_renames(m, enables, want).contains(x),
    decreases m.len(),
{
    if m.len() > 0 {
        lemma_only_renames_in_undo(m.drop_last(), enables, want, x);
        let u = undo_renames(m, enables, want);
        let r = undo_renames(m.drop_last(), enables, want);
        if u.contains(x) {
            let k = choose|k: int| 0 <= k < u.len() && u[k] == x;
            if enables[m.last() as int] == want {
                assert(u =~= seq![Undo::RenameBack(m.last())] + r);
                if k > 0 {
                    assert(r[k - 1] == x);
                }
            } else {
                assert(u =~= r);
            }
        }
    }
}

} // verus!
