//! The files that the posters of entries are kept in.

use vstd::prelude::*;

use crate::text::{concat2, decimal, law_decimal_reads_back, lemma_decimal_alphabet, number_text};

verus! {

broadcast use vstd::string::group_string_axioms;

/// The size that a poster is made to fit in.
pub const POSTER_WIDTH: u32 = 800;

pub const POSTER_HEIGHT: u32 = 1200;

/// The size that a thumbnail is made to fit in.
pub const THUMB_WIDTH: u32 = 90;

pub const THUMB_HEIGHT: u32 = 135;

/// The name of the file with the poster or the thumbnail of an entry.
pub open spec fn poster_file_name(entry_id: i64, thumb: bool) -> Seq<char> {
    if thumb {
        decimal(entry_id as int) + "_thumb.png"@
    } else {
        decimal(entry_id as int) + ".png"@
    }
}

/// The name of the file to show for an entry: its own where there is one, or
/// else the placeholder.
pub open spec fn shown_file_name(entry_id: i64, thumb: bool, exists: bool) -> Seq<char> {
    if exists {
        poster_file_name(entry_id, thumb)
    } else {
        "placeholder.png"@
    }
}

/// Names the file with the poster or the thumbnail of an entry.
pub fn poster_file(entry_id: i64, thumb: bool) -> (res: String)
    ensures
        res@ == poster_file_name(entry_id, thumb),
{
    if thumb {
        concat2(number_text(entry_id).as_str(), "_thumb.png")
    } else {
        concat2(number_text(entry_id).as_str(), ".png")
    }
}

/// Names the file to show for an entry, where `exists` says whether it has one
/// of its own.
pub fn shown_file(entry_id: i64, thumb: bool, exists: bool) -> (res: String)
    ensures
        res@ == shown_file_name(entry_id, thumb, exists),
{
    if exists {
        poster_file(entry_id, thumb)
    } else {
        "placeholder.png".to_owned()
    }
}

/// No two posters or thumbnails share a file, and none is kept in the file of
/// the placeholder.
pub proof fn law_poster_files_differ(a: i64, thumb_a: bool, b: i64, thumb_b: bool)
    ensures
        poster_file_name(a, thumb_a) == poster_file_name(b, thumb_b) ==> a == b && thumb_a
            == thumb_b,
        poster_file_name(a, thumb_a) != "placeholder.png"@,
{
    reveal_strlit("_thumb.png");
    reveal_strlit(".png");
    reveal_strlit("placeholder.png");
    let x = poster_file_name(a, thumb_a);
    let y = poster_file_name(b, thumb_b);
    let da = decimal(a as int);
    let db = decimal(b as int);
    lemma_decimal_alphabet(a as int);
    lemma_decimal_alphabet(b as int);
    assert("_thumb.png"@.len() == 10 && ".png"@.len() == 4);
    assert(x.len() == da.len() + if thumb_a {
        10int
    } else {
        4int
    });
    assert(y.len() == db.len() + if thumb_b {
        10int
    } else {
        4int
    });
    assert(x[0] == da[0]);
    if x == y {
        if thumb_a == thumb_b {
            assert(da =~= db) by {
                assert forall|i: int| 0 <= i < da.len() implies da[i] == db[i] by {
                    assert(x[i] == da[i] && y[i] == db[i]);
                }
            }
            law_decimal_reads_back(a as int);
            law_decimal_reads_back(b as int);
        } else if thumb_a {
            assert(db.len() == da.len() + 6);
            assert(x[da.len() as int] == '_');
            assert(y[da.len() as int] == db[da.len() as int]);
        } else {
            assert(da.len() == db.len() + 6);
            assert(y[db.len() as int] == '_');
            assert(x[db.len() as int] == da[db.len() as int]);
        }
    }
}

/// A poster and its thumbnail are named after the entry, and told apart by their
/// ends; what is shown is the entry's own file where there is one.
pub proof fn law_poster_names(entry_id: i64, thumb: bool)
    ensures
        poster_file_name(entry_id, true) == decimal(entry_id as int) + "_thumb.png"@,
        poster_file_name(entry_id, false) == decimal(entry_id as int) + ".png"@,
        shown_file_name(entry_id, thumb, true) == poster_file_name(entry_id, thumb),
        shown_file_name(entry_id, thumb, false) == "placeholder.png"@,
{
}

} // verus!
