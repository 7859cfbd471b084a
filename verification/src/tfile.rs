//! Looking up and rewriting entries of the game's text files.

use vstd::prelude::*;
use crate::pattern::{Pattern, regex_accepts, regex_match_texts};
use crate::text::{lemma_replace_absent, concat2, concat3, contains, i32_to_string, lines, replace_all, spec_contains,
    spec_decimal, spec_lines, spec_replace};

verus! {

/// The text that opens page `page` of a text file.
pub open spec fn spec_page_marker(page: Seq<char>) -> Seq<char> {
    "<page id=\""@ + page
}

/// Scans `lines`: until some line contains `marker` nothing is taken; after that line, the
/// first line that contains `entry` is the result; empty when there is none.
pub open spec fn spec_tfile_scan(lines: Seq<Seq<char>>, marker: Seq<char>, entry: Seq<char>, in_page: bool) -> Seq<char>
    decreases lines.len(),
{
    if lines.len() == 0 {
        seq![]
    } else if !in_page {
        spec_tfile_scan(lines.drop_first(), marker, entry, spec_contains(lines[0], marker))
    } else if spec_contains(lines[0], entry) {
        lines[0]
    } else {
        spec_tfile_scan(lines.drop_first(), marker, entry, true)
    }
}

proof fn lemma_scan_result(lines: Seq<Seq<char>>, marker: Seq<char>, entry: Seq<char>, in_page: bool)
    ensures
        spec_tfile_scan(lines, marker, entry, in_page).len() > 0 ==> {
            &&& lines.contains(spec_tfile_scan(lines, marker, entry, in_page))
            &&& spec_contains(spec_tfile_scan(lines, marker, entry, in_page), entry)
        },
    decreases lines.len(),
{
    if lines.len() > 0 {
        let next = if in_page { true } else { spec_contains(lines[0], marker) };
        lemma_scan_result(lines.drop_first(), marker, entry, next);
        let r = spec_tfile_scan(lines, marker, entry, in_page);
        if r.len() > 0 {
            if in_page && spec_contains(lines[0], entry) {
                assert(lines[0] == r);
            } else {
                let k = choose|k: int| 0 <= k < lines.drop_first().len() && #[trigger] lines.drop_first()[k] == r;
                assert(lines[k + 1] == r);
            }
        }
    }
}

proof fn lemma_scan_in_page(lines: Seq<Seq<char>>, marker: Seq<char>, entry: Seq<char>)
    ensures
        (exists|j: int| 0 <= j < lines.len() && #[trigger] spec_contains(lines[j], entry)) ==> exists|j: int| {
            &&& 0 <= j < lines.len()
            &&& #[trigger] spec_contains(lines[j], entry)
            &&& forall|k: int| 0 <= k < j ==> !spec_contains(lines[k], entry)
            &&& spec_tfile_scan(lines, marker, entry, true) == lines[j]
        },
        !(exists|j: int| 0 <= j < lines.len() && #[trigger] spec_contains(lines[j], entry))
            ==> spec_tfile_scan(lines, marker, entry, true) == Seq::<char>::empty(),
    decreases lines.len(),
{
    if lines.len() > 0 {
        let rest = lines.drop_first();
        lemma_scan_in_page(rest, marker, entry);
        if spec_contains(lines[0], entry) {
            assert(spec_contains(lines[0], entry) && spec_tfile_scan(lines, marker, entry, true) == lines[0]);
        } else {
            if exists|j: int| 0 <= j < lines.len() && #[trigger] spec_contains(lines[j], entry) {
                let j = choose|j: int| 0 <= j < lines.len() && #[trigger] spec_contains(lines[j], entry);
                assert(rest[j - 1] == lines[j]);
                assert(spec_contains(rest[j - 1], entry));
                let j2 = choose|j2: int| {
                    &&& 0 <= j2 < rest.len()
                    &&& #[trigger] spec_contains(rest[j2], entry)
                    &&& forall|k: int| 0 <= k < j2 ==> !spec_contains(rest[k], entry)
                    &&& spec_tfile_scan(rest, marker, entry, true) == rest[j2]
                };
                assert(rest[j2] == lines[j2 + 1]);
                assert forall|k: int| 0 <= k < j2 + 1 implies !spec_contains(lines[k], entry) by {
                    if k > 0 {
                        assert(lines[k] == rest[k - 1]);
                    }
                }
                assert(spec_contains(lines[j2 + 1], entry));
            } else {
                assert forall|j: int| 0 <= j < rest.len() implies !spec_contains(rest[j], entry) by {
                    assert(rest[j] == lines[j + 1]);
                }
            }
        }
    }
}

proof fn lemma_scan_out_of_page(lines: Seq<Seq<char>>, marker: Seq<char>, entry: Seq<char>)
    ensures
        (exists|i: int, j: int| #![trigger spec_contains(lines[i], marker), spec_contains(lines[j], entry)]
            0 <= i < j < lines.len() && spec_contains(lines[i], marker) && spec_contains(lines[j], entry))
            ==> exists|i: int, j: int| #![trigger spec_contains(lines[i], marker), spec_contains(lines[j], entry)] {
                &&& 0 <= i < j < lines.len()
                &&& spec_contains(lines[i], marker)
                &&& forall|k: int| 0 <= k < i ==> !spec_contains(lines[k], marker)
                &&& spec_contains(lines[j], entry)
                &&& forall|k: int| i < k < j ==> !spec_contains(lines[k], entry)
                &&& spec_tfile_scan(lines, marker, entry, false) == lines[j]
            },
        !(exists|i: int, j: int| #![trigger spec_contains(lines[i], marker), spec_contains(lines[j], entry)]
            0 <= i < j < lines.len() && spec_contains(lines[i], marker) && spec_contains(lines[j], entry))
            ==> spec_tfile_scan(lines, marker, entry, false) == Seq::<char>::empty(),
    decreases lines.len(),
{
    if lines.len() > 0 {
        let rest = lines.drop_first();
        if spec_contains(lines[0], marker) {
            lemma_scan_in_page(rest, marker, entry);
            if exists|i: int, j: int| #![trigger spec_contains(lines[i], marker), spec_contains(lines[j], entry)]
                0 <= i < j < lines.len() && spec_contains(lines[i], marker) && spec_contains(lines[j], entry) {
                let (i, j) = choose|i: int, j: int| #![trigger spec_contains(lines[i], marker), spec_contains(lines[j], entry)]
                    0 <= i < j < lines.len() && spec_contains(lines[i], marker) && spec_contains(lines[j], entry);
                assert(rest[j - 1] == lines[j]);
                assert(spec_contains(rest[j - 1], entry));
                let j2 = choose|j2: int| {
                    &&& 0 <= j2 < rest.len()
                    &&& #[trigger] spec_contains(rest[j2], entry)
                    &&& forall|k: int| 0 <= k < j2 ==> !spec_contains(rest[k], entry)
                    &&& spec_tfile_scan(rest, marker, entry, true) == rest[j2]
                };
                assert(rest[j2] == lines[j2 + 1]);
                assert forall|k: int| 0 < k < j2 + 1 implies !spec_contains(lines[k], entry) by {
                    assert(lines[k] == rest[k - 1]);
                }
                assert(spec_contains(lines[0], marker) && spec_contains(lines[j2 + 1], entry));
            } else {
                assert forall|j: int| 0 <= j < rest.len() implies !spec_contains(rest[j], entry) by {
                    assert(rest[j] == lines[j + 1]);
                    if spec_contains(rest[j], entry) {
                        assert(spec_contains(lines[0], marker) && spec_contains(lines[j + 1], entry));
                    }
                }
            }
        } else {
            lemma_scan_out_of_page(rest, marker, entry);
            if exists|i: int, j: int| #![trigger spec_contains(lines[i], marker), spec_contains(lines[j], entry)]
                0 <= i < j < lines.len() && spec_contains(lines[i], marker) && spec_contains(lines[j], entry) {
                let (i, j) = choose|i: int, j: int| #![trigger spec_contains(lines[i], marker), spec_contains(lines[j], entry)]
                    0 <= i < j < lines.len() && spec_contains(lines[i], marker) && spec_contains(lines[j], entry);
                assert(i > 0);
                assert(rest[i - 1] == lines[i]);
                assert(rest[j - 1] == lines[j]);
                assert(spec_contains(rest[i - 1], marker) && spec_contains(rest[j - 1], entry));
                let (i2, j2) = choose|i2: int, j2: int| #![trigger spec_contains(rest[i2], marker), spec_contains(rest[j2], entry)] {
                    &&& 0 <= i2 < j2 < rest.len()
                    &&& spec_contains(rest[i2], marker)
                    &&& forall|k: int| 0 <= k < i2 ==> !spec_contains(rest[k], marker)
                    &&& spec_contains(rest[j2], entry)
                    &&& forall|k: int| i2 < k < j2 ==> !spec_contains(rest[k], entry)
                    &&& spec_tfile_scan(rest, marker, entry, false) == rest[j2]
                };
                assert(rest[i2] == lines[i2 + 1]);
                assert(rest[j2] == lines[j2 + 1]);
                assert forall|k: int| 0 <= k < i2 + 1 implies !spec_contains(lines[k], marker) by {
                    if k > 0 {
                        assert(lines[k] == rest[k - 1]);
                    }
                }
                assert forall|k: int| i2 + 1 < k < j2 + 1 implies !spec_contains(lines[k], entry) by {
                    assert(lines[k] == rest[k - 1]);
                }
                assert(spec_contains(lines[i2 + 1], marker) && spec_contains(lines[j2 + 1], entry));
            } else {
                assert forall|i: int, j: int| 0 <= i < j < rest.len() && #[trigger] spec_contains(rest[i], marker)
                    implies !#[trigger] spec_contains(rest[j], entry) by {
                    assert(rest[i] == lines[i + 1]);
                    assert(rest[j] == lines[j + 1]);
                    if spec_contains(rest[j], entry) {
                        assert(spec_contains(lines[i + 1], marker) && spec_contains(lines[j + 1], entry));
                    }
                }
            }
        }
    }
}

/// A lookup enters the page only at the first line that contains `<page id="` followed by
/// the page number: when some such line is followed by a line holding the entry, the result
/// is the first line holding the entry after the first such line; otherwise it is empty.
pub proof fn law_lookup_enters_page_at_its_tag(page: Seq<char>, entry: Seq<char>, tfile: Seq<char>)
    ensures
        ({
            let lines = spec_lines(tfile);
            let tag = "<page id=\""@ + page;
            &&& (exists|i: int, j: int| #![trigger spec_contains(lines[i], tag), spec_contains(lines[j], entry)]
                0 <= i < j < lines.len() && spec_contains(lines[i], tag) && spec_contains(lines[j], entry))
                ==> exists|i: int, j: int| #![trigger spec_contains(lines[i], tag), spec_contains(lines[j], entry)] {
                    &&& 0 <= i < j < lines.len()
                    &&& spec_contains(lines[i], tag)
                    &&& forall|k: int| 0 <= k < i ==> !spec_contains(lines[k], tag)
                    &&& spec_contains(lines[j], entry)
                    &&& forall|k: int| i < k < j ==> !spec_contains(lines[k], entry)
                    &&& spec_tfile_lookup(page, entry, tfile) == lines[j]
                }
            &&& !(exists|i: int, j: int| #![trigger spec_contains(lines[i], tag), spec_contains(lines[j], entry)]
                0 <= i < j < lines.len() && spec_contains(lines[i], tag) && spec_contains(lines[j], entry))
                ==> spec_tfile_lookup(page, entry, tfile) == Seq::<char>::empty()
        }),
{
    lemma_scan_out_of_page(spec_lines(tfile), "<page id=\""@ + page, entry);
}

/// What a lookup finds, when it finds anything, is a line of the text file that holds the
/// entry number.
pub proof fn law_lookup_finds_entry_line(page: Seq<char>, entry: Seq<char>, tfile: Seq<char>)
    ensures
        spec_tfile_lookup(page, entry, tfile).len() > 0 ==> {
            &&& spec_lines(tfile).contains(spec_tfile_lookup(page, entry, tfile))
            &&& spec_contains(spec_tfile_lookup(page, entry, tfile), entry)
        },
{
    lemma_scan_result(spec_lines(tfile), spec_page_marker(page), entry, false);
}

/// The line of `tfile` that holds entry `entry` of page `page`.
pub open spec fn spec_tfile_lookup(page: Seq<char>, entry: Seq<char>, tfile: Seq<char>) -> Seq<char> {
    spec_tfile_scan(spec_lines(tfile), spec_page_marker(page), entry, false)
}

/// The line of `tfile` that follows the line opening page `page` and is the first after it
/// to contain `entry`; empty when there is none.
pub fn tfile_lookup(page: &str, entry: &str, tfile: &str) -> (r: String)
    ensures
        r@ == spec_tfile_lookup(page@, entry@, tfile@),
{
    let all = lines(tfile);
    let marker = concat2("<page id=\"", page);
    let ghost ls = all@.map_values(|l: String| l@);
    let mut in_page = false;
    let mut i: usize = 0;
    assert(ls.skip(0) =~= ls);
    while i < all.len()
        invariant
            i <= all.len(),
            ls == all@.map_values(|l: String| l@),
            ls == spec_lines(tfile@),
            marker@ == spec_page_marker(page@),
            spec_tfile_lookup(page@, entry@, tfile@) == spec_tfile_scan(ls.skip(i as int), marker@, entry@, in_page),
        decreases all.len() - i,
    {
        let ghost rest = ls.skip(i as int);
        assert(rest.drop_first() =~= ls.skip(i + 1));
        assert(rest[0] == all@[i as int]@);
        if !in_page {
            in_page = contains(all[i].as_str(), marker.as_str());
        } else if contains(all[i].as_str(), entry) {
            return all[i].clone();
        }
        i = i + 1;
    }
    String::new()
}

/// The pattern of a run of decimal digits.
pub open spec fn spec_digits_pattern() -> Seq<char> {
    "\\d+"@
}

/// The runs of digits that `regex` finds in a text reference such as `{20101,70501}`.
pub open spec fn spec_digit_runs(id_tfile: Seq<char>) -> Seq<Seq<char>> {
    regex_match_texts(spec_digits_pattern(), id_tfile)
}

/// The line of the text file that a reference `{page,entry}` points at: the page and entry
/// are the first two runs of digits in `id_tfile`.
pub fn get_tfile_value(id_tfile: &String, unwrapped_tfile: &str) -> (r: String)
    requires
        regex_accepts(spec_digits_pattern()),
        spec_digit_runs(id_tfile@).len() >= 2,
    ensures
        r@ == spec_tfile_lookup(spec_digit_runs(id_tfile@)[0], spec_digit_runs(id_tfile@)[1], unwrapped_tfile@),
{
    match Pattern::new("\\d+") {
        Ok(re) => {
            let runs = re.match_texts(id_tfile.as_str());
            assert(runs@.map_values(|m: String| m@).len() == runs@.len());
            assert(runs@.map_values(|m: String| m@)[0] == runs@[0]@);
            assert(runs@.map_values(|m: String| m@)[1] == runs@[1]@);
            tfile_lookup(runs[0].as_str(), runs[1].as_str(), unwrapped_tfile)
        },
        Err(_) => {
            proof {
                assert(false);
            }
            String::new()
        },
    }
}

/// `get_tfile_value` where it applies: `None` when `regex` refuses the digit pattern or
/// `id_tfile` holds fewer than two runs of digits.
pub fn try_get_tfile_value(id_tfile: &String, unwrapped_tfile: &str) -> (r: Option<String>)
    ensures
        r is Some <==> regex_accepts(spec_digits_pattern()) && spec_digit_runs(id_tfile@).len() >= 2,
        r matches Some(v) ==> v@ == spec_tfile_lookup(
            spec_digit_runs(id_tfile@)[0],
            spec_digit_runs(id_tfile@)[1],
            unwrapped_tfile@,
        ),
{
    match Pattern::new("\\d+") {
        Ok(re) => {
            let runs = re.match_texts(id_tfile.as_str());
            assert(runs@.map_values(|m: String| m@).len() == runs@.len());
            if runs.len() >= 2 {
                Some(get_tfile_value(id_tfile, unwrapped_tfile))
            } else {
                None
            }
        },
        Err(_) => None,
    }
}

/// A text-file line renumbered and renamed for the variant: the entry id becomes `tnum`
/// and the entry's text gets a space and `variant_tname` appended.
pub open spec fn spec_tfile_ware(tnum: int, line: Seq<char>, t_id: Seq<char>, t_content: Seq<char>, variant_tname: Seq<char>) -> Seq<char> {
    spec_replace(
        spec_replace(line, t_id, spec_decimal(tnum)),
        t_content,
        t_content + " "@ + variant_tname,
    )
}

/// A line that holds neither the entry id nor the entry text is left as it is.
pub proof fn law_tfile_ware_keeps_unrelated_lines(tnum: int, line: Seq<char>, t_id: Seq<char>, t_content: Seq<char>, variant_tname: Seq<char>)
    requires
        t_id.len() > 0,
        t_content.len() > 0,
        !spec_contains(line, t_id),
        !spec_contains(line, t_content),
    ensures
        spec_tfile_ware(tnum, line, t_id, t_content, variant_tname) == line,
{
    lemma_replace_absent(line, t_id, spec_decimal(tnum));
    lemma_replace_absent(line, t_content, t_content + " "@ + variant_tname);
}

/// Renumbers the text-file line `tname_line`, whose entry has id `t_id` and text
/// `t_content`, to `tnum`, and appends the variant's suffix to its text.
pub fn tfile_ware(tnum: i32, tname_line: String, t_id: &str, t_content: &str, variant_tname: &str) -> (r: String)
    ensures
        r@ == spec_tfile_ware(tnum as int, tname_line@, t_id@, t_content@, variant_tname@),
{
    let num = i32_to_string(tnum);
    let renumbered = replace_all(tname_line.as_str(), t_id, num.as_str());
    let renamed = concat3(t_content, " ", variant_tname);
    replace_all(renumbered.as_str(), t_content, renamed.as_str())
}

} // verus!
