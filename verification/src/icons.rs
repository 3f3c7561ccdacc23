//! The embedded application icons: which of them are written out.

use vstd::prelude::*;

use crate::text;

verus! {

/// An embedded icon: a file name and its bytes.
#[derive(Debug, Clone, PartialEq, Eq)]
pub struct Icon {
    pub name: String,
    pub bytes: Vec<u8>,
}

/// Whether an icon is to be written: it has bytes, and no file of its name is
/// there.
pub open spec fn is_pending(icon: Icon, present: Seq<Seq<char>>) -> bool {
    icon.bytes@.len() > 0 && !present.contains(icon.name@)
}

/// The indices of the icons that are to be written, in order.
pub open spec fn pending(icons: Seq<Icon>, present: Seq<Seq<char>>) -> Seq<usize>
    decreases icons.len(),
{
    if icons.len() == 0 {
        Seq::<usize>::empty()
    } else if is_pending(icons.last(), present) {
        pending(icons.drop_last(), present).push((icons.len() - 1) as usize)
    } else {
        pending(icons.drop_last(), present)
    }
}

fn lists(names: &Vec<String>, name: &str) -> (r: bool)
    ensures
        r == text::views(names@).contains(name@),
{
    let ghost vs = text::views(names@);
    let mut i: usize = 0;
    while i < names.len()
        invariant
            i <= names@.len(),
            vs == text::views(names@),
            forall|j: int| 0 <= j < i ==> #[trigger] vs[j] != name@,
        decreases names@.len() - i,
    {
        assert(vs[i as int] == names@[i as int]@);
        if text::same(names[i].as_str(), name) {
            return true;
        }
        i = i + 1;
    }
    false
}

/// Decides which icons are written to a directory that holds the files
/// `present`. A file that is there is left alone, so that a user may put in
/// icons of their own; an icon without bytes is not written.
#[must_use]
pub fn export_icons_to(icons: &Vec<Icon>, present: &Vec<String>) -> (r: Vec<usize>)
    ensures
        r@ == pending(icons@, text::views(present@)),
        forall|i: int|
            0 <= i < r@.len() ==> (#[trigger] r@[i]) < icons@.len() && is_pending(
                icons@[r@[i] as int],
                text::views(present@),
            ),
{
    let ghost ps = text::views(present@);
    let mut r: Vec<usize> = Vec::new();
    let mut i: usize = 0;
    while i < icons.len()
        invariant
            i <= icons@.len(),
            ps == text::views(present@),
            r@ == pending(icons@.take(i as int), ps),
            forall|j: int|
                0 <= j < r@.len() ==> (#[trigger] r@[j]) < i && is_pending(
                    icons@[r@[j] as int],
                    ps,
                ),
        decreases icons@.len() - i,
    {
        assert(icons@.take(i + 1).drop_last() =~= icons@.take(i as int));
        assert(icons@.take(i + 1).last() == icons@[i as int]);
        if icons[i].bytes.len() > 0 && !lists(present, icons[i].name.as_str()) {
            r.push(i);
        }
        i = i + 1;
    }
    assert(icons@.take(i as int) =~= icons@);
    r
}

/// An icon is written just where it has bytes and no file of its name is there;
/// each is written once, in the order of the icons.
pub proof fn law_missing_icons_are_written(icons: Seq<Icon>, present: Seq<Seq<char>>, i: usize)
    requires
        icons.len() <= usize::MAX,
    ensures
        pending(icons, present).contains(i) <==> i < icons.len() && icons[i as int].bytes@.len() > 0
            && forall|k: int|
            0 <= k < present.len() ==> #[trigger] present[k] != icons[i as int].name@,
        forall|a: int, b: int|
            0 <= a < b < pending(icons, present).len() ==> #[trigger] pending(icons, present)[a]
                < #[trigger] pending(icons, present)[b],
        forall|a: int|
            0 <= a < pending(icons, present).len() ==> #[trigger] pending(icons, present)[a]
                < icons.len(),
    decreases icons.len(),
{
    let r = pending(icons, present);
    if icons.len() > 0 {
        let init = icons.drop_last();
        let before = pending(init, present);
        let n = icons.len() - 1;
        law_missing_icons_are_written(init, present, i);
        if is_pending(icons.last(), present) {
            assert(r[before.len() as int] == n);
            if before.contains(i) {
                let k = choose|k: int| 0 <= k < before.len() && before[k] == i;
                assert(r[k] == i);
            }
            assert forall|k: int| 0 <= k < present.len() implies #[trigger] present[k]
                != icons.last().name@ by {}
        }
        if i < n {
            assert(init[i as int] == icons[i as int]);
        }
        if i == n && icons[n].bytes@.len() > 0 && forall|k: int|
            0 <= k < present.len() ==> #[trigger] present[k] != icons[n].name@ {
            assert(is_pending(icons.last(), present));
        }
    }
}

} // verus!
