use vstd::prelude::*;

verus! {

/// `known` after the scanned names have been offered one by one, in scan
/// order, each appended unless the list already holds it.
pub open spec fn merge_scanned(known: Seq<Seq<char>>, scanned: Seq<Seq<char>>) -> Seq<Seq<char>>
    decreases scanned.len(),
{
    if scanned.len() == 0 {
        known
    } else {
        let before = merge_scanned(known, scanned.drop_last());
        if before.contains(scanned.last()) {
            before
        } else {
            before.push(scanned.last())
        }
    }
}

/// Whether `list` holds `name`.
fn holds(list: &Vec<String>, name: &String) -> (found: bool)
    ensures
        found == list.deep_view().contains(name@),
{
    let n = list.len();
    let mut i: usize = 0;
    while i < n
        invariant
            n == list@.len(),
            i <= n,
            forall|j: int| 0 <= j < i ==> list.deep_view()[j] != name@,
        decreases n - i,
    {
        if list[i] == *name {
            assert(list.deep_view()[i as int] == name@);
            return true;
        }
        i = i + 1;
    }
    false
}

/// Adds each scanned network name to the list of known names, in scan
/// order, unless the list already holds it.
pub fn merge_ssids(known: &mut Vec<String>, scanned: &Vec<String>)
    ensures
        final(known).deep_view() == merge_scanned(old(known).deep_view(), scanned.deep_view()),
{
    let n = scanned.len();
    let mut i: usize = 0;
    let ghost original = known.deep_view();
    while i < n
        invariant
            n == scanned@.len(),
            i <= n,
            known.deep_view() == merge_scanned(
                original,
                scanned.deep_view().subrange(0, i as int),
            ),
        decreases n - i,
    {
        let name = scanned[i].clone();
        let ghost prefix = scanned.deep_view().subrange(0, i + 1);
        assert(prefix.drop_last() =~= scanned.deep_view().subrange(0, i as int));
        assert(prefix.last() == name@);
        if !holds(known, &name) {
            let ghost before = known.deep_view();
            known.push(name);
            assert(known.deep_view() =~= before.push(scanned.deep_view()[i as int]));
        }
        i = i + 1;
    }
    assert(scanned.deep_view().subrange(0, n as int) =~= scanned.deep_view());
}

/// Law: merging never loses or reorders a known name: the old list is a
/// prefix of the merged one.
pub proof fn lemma_merge_keeps_known(known: Seq<Seq<char>>, scanned: Seq<Seq<char>>)
    ensures
        known.len() <= merge_scanned(known, scanned).len(),
        merge_scanned(known, scanned).subrange(0, known.len() as int) == known,
    decreases scanned.len(),
{
    if scanned.len() > 0 {
        lemma_merge_keeps_known(known, scanned.drop_last());
        let before = merge_scanned(known, scanned.drop_last());
        assert(before.push(scanned.last()).subrange(0, known.len() as int) =~= before.subrange(
            0,
            known.len() as int,
        ));
    } else {
        assert(known.subrange(0, known.len() as int) =~= known);
    }
}

/// Law: the merged list holds exactly the names that were known or scanned.
pub proof fn lemma_merge_members(known: Seq<Seq<char>>, scanned: Seq<Seq<char>>, name: Seq<char>)
    ensures
        merge_scanned(known, scanned).contains(name) <==> (known.contains(name) || scanned.contains(
            name,
        )),
    decreases scanned.len(),
{
    if scanned.len() > 0 {
        let rest = scanned.drop_last();
        lemma_merge_members(known, rest, name);
        let before = merge_scanned(known, rest);
        if scanned.contains(name) && !rest.contains(name) {
            let j = choose|j: int| 0 <= j < scanned.len() && scanned[j] == name;
            if j < scanned.len() - 1 {
                assert(rest[j] == name);
            }
        }
        if rest.contains(name) {
            let j = choose|j: int| 0 <= j < rest.len() && rest[j] == name;
            assert(scanned[j] == name);
        }
        if before.push(scanned.last()).contains(name) && !before.contains(name) {
            let j = choose|j: int|
                0 <= j < before.push(scanned.last()).len() && before.push(scanned.last())[j]
                    == name;
            if j < before.len() {
                assert(before[j] == name);
            }
        }
        if before.contains(name) {
            let j = choose|j: int| 0 <= j < before.len() && before[j] == name;
            assert(before.push(scanned.last())[j] == name);
        }
        assert(scanned[scanned.len() - 1] == scanned.last());
        assert(before.push(scanned.last())[before.len() as int] == scanned.last());
    }
}

/// Law: a list without repeated names stays so, whatever the scan reports:
/// the portal offers each network once.
pub proof fn lemma_merge_no_duplicates(known: Seq<Seq<char>>, scanned: Seq<Seq<char>>)
    requires
        known.no_duplicates(),
    ensures
        merge_scanned(known, scanned).no_duplicates(),
    decreases scanned.len(),
{
    if scanned.len() > 0 {
        lemma_merge_no_duplicates(known, scanned.drop_last());
        let before = merge_scanned(known, scanned.drop_last());
        if !before.contains(scanned.last()) {
            let after = before.push(scanned.last());
            assert forall|i: int, j: int|
                0 <= i < after.len() && 0 <= j < after.len() && i != j implies after[i]
                != after[j] by {
                if i == before.len() && after[i] == after[j] {
                    assert(before[j] == scanned.last());
                }
                if j == before.len() && after[i] == after[j] {
                    assert(before[i] == scanned.last());
                }
            }
        }
    }
}

/// Law: offering the same scan twice changes nothing the second time.
pub proof fn lemma_merge_idempotent(known: Seq<Seq<char>>, scanned: Seq<Seq<char>>)
    ensures
        merge_scanned(merge_scanned(known, scanned), scanned) == merge_scanned(known, scanned),
{
    assert forall|name: Seq<char>| scanned.contains(name) implies merge_scanned(
        known,
        scanned,
    ).contains(name) by {
        lemma_merge_members(known, scanned, name);
    }
    lemma_merge_of_members(merge_scanned(known, scanned), scanned);
}

/// Merging names that the list already holds leaves it unchanged.
proof fn lemma_merge_of_members(known: Seq<Seq<char>>, scanned: Seq<Seq<char>>)
    requires
        forall|name: Seq<char>| scanned.contains(name) ==> known.contains(name),
    ensures
        merge_scanned(known, scanned) == known,
    decreases scanned.len(),
{
    if scanned.len() > 0 {
        let rest = scanned.drop_last();
        assert forall|name: Seq<char>| rest.contains(name) implies known.contains(name) by {
            let j = choose|j: int| 0 <= j < rest.len() && rest[j] == name;
            assert(scanned[j] == name);
        }
        lemma_merge_of_members(known, rest);
        assert(scanned.contains(scanned[scanned.len() - 1]));
    }
}

/// Law: offering a single name appends it exactly when the list does not
/// hold it yet.
pub proof fn lemma_merge_one(known: Seq<Seq<char>>, name: Seq<char>)
    ensures
        merge_scanned(known, seq![name]) == (if known.contains(name) {
            known
        } else {
            known.push(name)
        }),
{
    assert(seq![name].drop_last() =~= Seq::<Seq<char>>::empty());
    assert(seq![name].last() == name);
    assert(merge_scanned(known, seq![name].drop_last()) == known);
}

/// Law: two scans offered one after the other merge as their concatenation:
/// names are taken in scan order.
pub proof fn lemma_merge_in_scan_order(
    known: Seq<Seq<char>>,
    first: Seq<Seq<char>>,
    second: Seq<Seq<char>>,
)
    ensures
        merge_scanned(known, first + second) == merge_scanned(merge_scanned(known, first), second),
    decreases second.len(),
{
    if second.len() == 0 {
        assert(first + second =~= first);
    } else {
        lemma_merge_in_scan_order(known, first, second.drop_last());
        assert((first + second).drop_last() =~= first + second.drop_last());
        assert((first + second).last() == second.last());
    }
}

} // verus!
