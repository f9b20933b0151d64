//! Device identifiers: the stable `vendor:product` id of a sysfs device, and the
//! persisted selection file that stores one.

use vstd::prelude::*;
use crate::text::{
    all_white_space, chars_of, is_white_space, lemma_split_append_piece, lemma_split_nonempty,
    lemma_split_pieces_lack_separator, lemma_split_without_separator, lemma_trim_end_padding,
    lemma_split_first_piece, lemma_trim_start_padding, opt_chars, push_char, split_chars, split_on, string_of, trim,
    trim_chars,
};

verus! {

/// The stable `vendor:product` id in a sysfs device id such as `0003:1532:00B8.000A`:
/// the text before the first `.` must split on `:` into exactly three pieces, the
/// second and third not empty; the id is the second and third joined by `:`.
pub open spec fn persistent_id_of(sysfs_id: Seq<char>) -> Option<Seq<char>> {
    let main = split_on(sysfs_id, '.')[0];
    let parts = split_on(main, ':');
    if parts.len() == 3 && parts[1].len() > 0 && parts[2].len() > 0 {
        Some(parts[1] + seq![':'] + parts[2])
    } else {
        None
    }
}

/// The selection that a persisted selection file holds: its content without
/// surrounding white space, when that splits on `:` into exactly two non-empty pieces.
pub open spec fn persisted_selection_of(content: Seq<char>) -> Option<Seq<char>> {
    let trimmed = trim(content);
    let parts = split_on(trimmed, ':');
    if parts.len() == 2 && parts[0].len() > 0 && parts[1].len() > 0 {
        Some(trimmed)
    } else {
        None
    }
}

/// Extracts the `vendor:product` id from a sysfs device id, which survives
/// reconnects while the instance suffix does not.
pub fn extract_persistent_id(sysfs_id: &str) -> (r: Option<String>)
    ensures
        opt_chars(r) == persistent_id_of(sysfs_id@),
{
    let chars = chars_of(sysfs_id);
    let segments = split_chars(&chars, '.');
    proof {
        lemma_split_nonempty(chars@, '.');
    }
    let main = &segments[0];
    assert(main@ == split_on(sysfs_id@, '.')[0]);
    let parts = split_chars(main, ':');
    if parts.len() == 3 && parts[1].len() > 0 && parts[2].len() > 0 {
        assert(parts[1]@ == split_on(main@, ':')[1]);
        assert(parts[2]@ == split_on(main@, ':')[2]);
        let mut id = string_of(&parts[1], 0, parts[1].len());
        push_char(&mut id, ':');
        let tail = string_of(&parts[2], 0, parts[2].len());
        id.append(tail.as_str());
        assert(parts[1]@.subrange(0, parts[1]@.len() as int) =~= parts[1]@);
        assert(parts[2]@.subrange(0, parts[2]@.len() as int) =~= parts[2]@);
        assert(id@ =~= parts[1]@ + seq![':'] + parts[2]@);
        Some(id)
    } else {
        assert(parts.len() == 3 ==> parts[1]@ == split_on(main@, ':')[1] && parts[2]@ == split_on(
            main@,
            ':',
        )[2]);
        None
    }
}

/// Reads a persisted selection: one `vendor:product` line, surrounding white space
/// ignored; anything else is treated as no selection.
pub fn parse_persisted_selection(content: &str) -> (r: Option<String>)
    ensures
        opt_chars(r) == persisted_selection_of(content@),
{
    let chars = chars_of(content);
    let trimmed = trim_chars(&chars);
    let parts = split_chars(&trimmed, ':');
    if parts.len() == 2 && parts[0].len() > 0 && parts[1].len() > 0 {
        assert(parts[0]@ == split_on(trimmed@, ':')[0]);
        assert(parts[1]@ == split_on(trimmed@, ':')[1]);
        let r = string_of(&trimmed, 0, trimmed.len());
        assert(trimmed@.subrange(0, trimmed@.len() as int) =~= trimmed@);
        Some(r)
    } else {
        assert(parts.len() == 2 ==> parts[0]@ == split_on(trimmed@, ':')[0] && parts[1]@
            == split_on(trimmed@, ':')[1]);
        None
    }
}

/// The id of `bus:vendor:product` followed by nothing or by a `.instance`
/// suffix is `vendor:product`, when the three fields hold neither `:` nor `.` and
/// vendor and product are not empty.
pub proof fn lemma_persistent_id_of_fields(
    bus: Seq<char>,
    vendor: Seq<char>,
    product: Seq<char>,
    suffix: Seq<char>,
)
    requires
        !bus.contains(':') && !bus.contains('.'),
        !vendor.contains(':') && !vendor.contains('.'),
        !product.contains(':') && !product.contains('.'),
        vendor.len() > 0,
        product.len() > 0,
        suffix.len() == 0 || suffix[0] == '.',
    ensures
        persistent_id_of(bus + seq![':'] + vendor + seq![':'] + product + suffix) == Some(
            vendor + seq![':'] + product,
        ),
{
    let main = bus + seq![':'] + vendor + seq![':'] + product;
    assert(!main.contains('.')) by {
        if main.contains('.') {
            let k = choose|k: int| 0 <= k < main.len() && main[k] == '.';
            if k < bus.len() {
                assert(bus[k] == '.');
            } else if k == bus.len() {
            } else if k < bus.len() + 1 + vendor.len() {
                assert(vendor[k - bus.len() - 1] == '.');
            } else if k == bus.len() + 1 + vendor.len() {
            } else {
                assert(product[k - bus.len() - 2 - vendor.len()] == '.');
            }
        }
    }
    lemma_split_first_piece(main, suffix, '.');
    assert(bus + seq![':'] + vendor + seq![':'] + product + suffix == main + suffix);
    lemma_split_without_separator(bus, ':');
    lemma_split_append_piece(bus, vendor, ':');
    lemma_split_append_piece(bus + seq![':'] + vendor, product, ':');
    assert(split_on(main, ':') =~= seq![bus, vendor, product]);
}

/// A persisted selection reads back as written: the `vendor:product` id of a
/// sysfs device, stored with any white space around it (such as a final newline),
/// is read as that same id, provided the id neither starts nor ends with white space.
pub proof fn lemma_persisted_id_round_trip(sysfs_id: Seq<char>, before: Seq<char>, after: Seq<char>)
    requires
        persistent_id_of(sysfs_id) is Some,
        !is_white_space(persistent_id_of(sysfs_id)->0[0]),
        !is_white_space(persistent_id_of(sysfs_id)->0.last()),
        all_white_space(before),
        all_white_space(after),
    ensures
        persisted_selection_of(before + persistent_id_of(sysfs_id)->0 + after) == persistent_id_of(
            sysfs_id,
        ),
{
    let main = split_on(sysfs_id, '.')[0];
    let parts = split_on(main, ':');
    let id = persistent_id_of(sysfs_id)->0;
    lemma_split_pieces_lack_separator(main, ':');
    assert(!parts[1].contains(':'));
    assert(!parts[2].contains(':'));
    lemma_trim_start_padding(before, id + after);
    assert((before + id + after) =~= before + (id + after));
    assert((id + after)[0] == id[0]);
    lemma_trim_end_padding(id, after);
    assert(trim(before + id + after) == id);
    lemma_split_without_separator(parts[1], ':');
    lemma_split_append_piece(parts[1], parts[2], ':');
    assert(split_on(id, ':') =~= seq![parts[1], parts[2]]);
}

} // verus!
