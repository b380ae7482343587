//! Importing an rclone configuration file: the remotes it names, and the
//! configuration that merging it into an existing one gives.

use vstd::prelude::*;
use crate::json::{field_views, json_object, json_object_text, json_string, json_string_text};
use crate::rclone::RcloneRequest;
use crate::text::{
    all_white_space, char_lines, chars_of, is_white_space, lemma_lines_concat,
    lemma_lines_have_no_line_feed, lemma_lines_of_line, lemma_scan_one_line, trim_end_by,
    trim_start_by, lemma_trim_append_white_space,
    lemma_trim_end_split, lemma_trim_idempotent, lemma_trim_prepend_white_space,
    lemma_trim_start_split, lemma_trim_strip_cr, line_scan, lines, lines_of, same_chars,
    slice_range, string_of, string_views, strip_cr, trim, trim_chars, trim_range,
};

verus! {


/// Whether a trimmed line opens a section: it starts with `[` and ends with
/// `]`.
pub open spec fn is_section_header(t: Seq<char>) -> bool {
    t.len() > 0 && t.first() == '[' && t.last() == ']'
}

/// The name of the section that a header opens: what stands between the
/// brackets, trimmed.
pub open spec fn section_name(t: Seq<char>) -> Seq<char> {
    trim(t.subrange(1, t.len() - 1))
}

/// The non-empty section names among the given lines, in order.
pub open spec fn names_in_lines(ls: Seq<Seq<char>>) -> Seq<Seq<char>>
    decreases ls.len(),
{
    if ls.len() == 0 {
        seq![]
    } else {
        let earlier = names_in_lines(ls.drop_last());
        let t = trim(ls.last());
        if is_section_header(t) && section_name(t).len() > 0 {
            earlier.push(section_name(t))
        } else {
            earlier
        }
    }
}

/// The names of the remotes that an rclone configuration text defines: the
/// non-empty names of its section headers, in order.
pub open spec fn rclone_remote_names(config: Seq<char>) -> Seq<Seq<char>> {
    names_in_lines(lines(config))
}

/// Every remote name that a configuration text defines is non-empty and has
/// no white space at either end.
pub proof fn lemma_remote_names_trimmed(config: Seq<char>)
    ensures
        forall|i: int|
            0 <= i < rclone_remote_names(config).len() ==> (#[trigger] rclone_remote_names(
                config,
            )[i]).len() > 0 && trim(rclone_remote_names(config)[i]) == rclone_remote_names(
                config,
            )[i],
{
    lemma_names_trimmed(lines(config));
}

proof fn lemma_names_trimmed(ls: Seq<Seq<char>>)
    ensures
        forall|i: int|
            0 <= i < names_in_lines(ls).len() ==> (#[trigger] names_in_lines(ls)[i]).len() > 0
                && trim(names_in_lines(ls)[i]) == names_in_lines(ls)[i],
    decreases ls.len(),
{
    if ls.len() > 0 {
        lemma_names_trimmed(ls.drop_last());
        let t = trim(ls.last());
        let inner = t.subrange(1, t.len() - 1);
        lemma_trim_idempotent(inner);
        let earlier = names_in_lines(ls.drop_last());
        if is_section_header(t) && section_name(t).len() > 0 {
            assert forall|i: int| 0 <= i < earlier.push(section_name(t)).len() implies (
            #[trigger] earlier.push(section_name(t))[i]).len() > 0 && trim(
                earlier.push(section_name(t))[i],
            ) == earlier.push(section_name(t))[i] by {
                if i < earlier.len() {
                    assert(earlier.push(section_name(t))[i] == earlier[i]);
                }
            }
        }
    }
}

/// A header line names its remote whatever the name's length: the line
/// `[` + `s` + `]`, after any text that ends its last line, adds the trimmed
/// `s` to the names of that text where it is not blank, and nothing where it
/// is; alone, it is a configuration naming just that remote.
pub proof fn lemma_header_line_names(x: Seq<char>, s: Seq<char>)
    requires
        x.len() == 0 || x.last() == '\n',
        !s.contains('\n'),
    ensures
        rclone_remote_names(x + (seq!['['] + s + seq![']']).push('\n')) == rclone_remote_names(x)
            + (if trim(s).len() > 0 {
            seq![trim(s)]
        } else {
            Seq::<Seq<char>>::empty()
        }),
        rclone_remote_names(seq!['['] + s + seq![']']) == (if trim(s).len() > 0 {
            seq![trim(s)]
        } else {
            Seq::<Seq<char>>::empty()
        }),
{
    let l = seq!['['] + s + seq![']'];
    assert(!l.contains('\n')) by {
        if l.contains('\n') {
            let i = choose|i: int| 0 <= i < l.len() && l[i] == '\n';
            assert(s[i - 1] == '\n');
        }
    }
    assert(l[0] == '[' && l.last() == ']');
    assert(trim_start_by(l, false) == l);
    assert(trim_end_by(l, false) == l);
    assert(trim(l) == l);
    assert(l.subrange(1, l.len() - 1) =~= s);
    let expected = if trim(s).len() > 0 {
        seq![trim(s)]
    } else {
        Seq::<Seq<char>>::empty()
    };
    assert(line_name(l) == expected);
    lemma_names_push(Seq::<Seq<char>>::empty(), l);
    assert(Seq::<Seq<char>>::empty().push(l) =~= seq![l]);
    assert(Seq::<Seq<char>>::empty() + expected =~= expected);
    assert(strip_cr(l) == l);
    lemma_lines_of_line(l);
    lemma_lines_concat(x, l.push('\n'));
    lemma_names_concat(lines(x), seq![l]);
    lemma_scan_one_line(l);
    assert(lines(l) == seq![l]);
}

fn section_name_of(t: &[char]) -> (r: Option<Vec<char>>)
    requires
        t@ == trim(t@),
    ensures
        r is Some <==> is_section_header(t@),
        r matches Some(n) ==> n@ == section_name(t@),
{
    if t.len() > 0 && t[0] == '[' && t[t.len() - 1] == ']' {
        assert(t@.len() >= 2);
        let inner = slice_range(t, 1, t.len() - 1);
        Some(trim_chars(&inner))
    } else {
        None
    }
}

fn names_in_text(config: &[char]) -> (names: Vec<Vec<char>>)
    ensures
        char_lines(names@) == rclone_remote_names(config@),
{
    let ls = lines_of(config);
    let mut names: Vec<Vec<char>> = Vec::new();
    let mut i: usize = 0;
    while i < ls.len()
        invariant
            i <= ls@.len(),
            char_lines(ls@) == lines(config@),
            char_lines(names@) == names_in_lines(char_lines(ls@).take(i as int)),
        decreases ls@.len() - i,
    {
        let ghost prefix = char_lines(ls@).take(i + 1);
        assert(prefix.drop_last() =~= char_lines(ls@).take(i as int));
        assert(prefix.last() == ls@[i as int]@);
        let t = trim_chars(&ls[i]);
        proof {
            lemma_trim_idempotent(ls@[i as int]@);
        }
        match section_name_of(&t) {
            Some(name) => {
                if name.len() > 0 {
                    let ghost before = names@;
                    names.push(name);
                    assert(char_lines(names@) =~= char_lines(before).push(name@));
                }
            },
            None => {},
        }
        i = i + 1;
    }
    assert(char_lines(ls@).take(ls@.len() as int) =~= char_lines(ls@));
    names
}

/// The names of the remotes that an rclone configuration text defines.
pub fn parse_rclone_remote_names(config: &str) -> (names: Vec<String>)
    ensures
        string_views(names@) == rclone_remote_names(config@),
{
    let cs = chars_of(config);
    let found = names_in_text(&cs);
    let mut names: Vec<String> = Vec::new();
    let mut i: usize = 0;
    while i < found.len()
        invariant
            i <= found@.len(),
            string_views(names@) == char_lines(found@).take(i as int),
        decreases found@.len() - i,
    {
        let ghost before = names@;
        names.push(string_of(&found[i]));
        assert(string_views(names@) =~= string_views(before).push(found@[i as int]@));
        assert(char_lines(found@).take(i + 1) =~= char_lines(found@).take(i as int).push(
            found@[i as int]@,
        ));
        i = i + 1;
    }
    assert(char_lines(found@).take(found@.len() as int) =~= char_lines(found@));
    names
}


/// Whether, after the given lines of an existing configuration, the section
/// that is open is one that the import replaces: the last header among the
/// lines names a remote of the import.
pub open spec fn section_replaced(ls: Seq<Seq<char>>, imported: Seq<Seq<char>>) -> bool
    decreases ls.len(),
{
    if ls.len() == 0 {
        false
    } else {
        let t = trim(ls.last());
        if is_section_header(t) {
            imported.contains(section_name(t))
        } else {
            section_replaced(ls.drop_last(), imported)
        }
    }
}

/// The lines of an existing configuration that lie outside the replaced
/// sections, each followed by a line feed.
pub open spec fn kept_lines(ls: Seq<Seq<char>>, imported: Seq<Seq<char>>) -> Seq<char>
    decreases ls.len(),
{
    if ls.len() == 0 {
        seq![]
    } else {
        let earlier = kept_lines(ls.drop_last(), imported);
        if section_replaced(ls, imported) {
            earlier
        } else {
            earlier + ls.last().push('\n')
        }
    }
}

/// The configuration that importing `imported` into `existing` writes: the
/// lines of `existing` outside the sections that `imported` redefines, a blank
/// line if any of them is not blank, then `imported` trimmed and a line feed.
pub open spec fn merged_rclone_config(existing: Seq<char>, imported: Seq<char>) -> Seq<char> {
    let kept = kept_lines(lines(existing), rclone_remote_names(imported));
    let separator = if trim(kept).len() > 0 {
        seq!['\n']
    } else {
        seq![]
    };
    kept + separator + trim(imported).push('\n')
}

/// A merged configuration ends with the imported text, trimmed, and a line
/// feed; merged into an empty configuration, that is all it holds.
pub proof fn lemma_merge_ends_with_import(existing: Seq<char>, imported: Seq<char>)
    ensures
        ({
            let merged = merged_rclone_config(existing, imported);
            let tail = trim(imported).push('\n');
            merged.len() >= tail.len() && merged.subrange(merged.len() - tail.len(), merged.len() as int)
                == tail
        }),
        merged_rclone_config(Seq::empty(), imported) == trim(imported).push('\n'),
{
    let kept = kept_lines(lines(existing), rclone_remote_names(imported));
    let sep = if trim(kept).len() > 0 {
        seq!['\n']
    } else {
        Seq::<char>::empty()
    };
    let merged = merged_rclone_config(existing, imported);
    let tail = trim(imported).push('\n');
    assert(merged == kept + sep + tail);
    assert(merged.subrange(merged.len() - tail.len(), merged.len() as int) =~= tail);
    assert(lines(Seq::<char>::empty()) =~= Seq::<Seq<char>>::empty());
    assert(kept_lines(Seq::<Seq<char>>::empty(), rclone_remote_names(imported)) =~= Seq::<char>::empty());
    assert(trim(Seq::<char>::empty()).len() == 0);
    assert(Seq::<char>::empty() + Seq::<char>::empty() + tail =~= tail);
}

/// The names that are not among `imported`, in order.
pub open spec fn names_outside(ns: Seq<Seq<char>>, imported: Seq<Seq<char>>) -> Seq<Seq<char>>
    decreases ns.len(),
{
    if ns.len() == 0 {
        seq![]
    } else {
        let earlier = names_outside(ns.drop_last(), imported);
        if imported.contains(ns.last()) {
            earlier
        } else {
            earlier.push(ns.last())
        }
    }
}

proof fn lemma_kept_lines(ls: Seq<Seq<char>>, imported: Seq<Seq<char>>)
    requires
        forall|i: int| 0 <= i < ls.len() ==> !(#[trigger] ls[i]).contains('\n'),
    ensures
        kept_lines(ls, imported).len() == 0 || kept_lines(ls, imported).last() == '\n',
        rclone_remote_names(kept_lines(ls, imported)) == names_outside(
            names_in_lines(ls),
            imported,
        ),
    decreases ls.len(),
{
    if ls.len() == 0 {
        assert(lines(Seq::<char>::empty()) =~= Seq::<Seq<char>>::empty());
    } else {
        let l = ls.last();
        let earlier = ls.drop_last();
        assert(l == ls[ls.len() - 1]);
        lemma_kept_lines(earlier, imported);
        let k = kept_lines(earlier, imported);
        lemma_names_push(earlier, l);
        assert(ls =~= earlier.push(l));
        let ns = names_in_lines(earlier);
        let t = trim(l);
        if line_name(l).len() == 1 {
            assert(names_in_lines(ls) =~= ns.push(section_name(t)));
            assert(names_in_lines(ls).drop_last() =~= ns);
        } else {
            assert(names_in_lines(ls) =~= ns);
        }
        if !section_replaced(ls, imported) {
            lemma_lines_concat(k, l.push('\n'));
            lemma_lines_of_line(l);
            lemma_names_concat(lines(k), seq![strip_cr(l)]);
            lemma_trim_strip_cr(l);
            lemma_names_push(Seq::<Seq<char>>::empty(), strip_cr(l));
            assert(Seq::<Seq<char>>::empty().push(strip_cr(l)) =~= seq![strip_cr(l)]);
            assert(Seq::<Seq<char>>::empty() + line_name(l) =~= line_name(l));
            if line_name(l).len() == 0 {
                assert(names_outside(ns, imported) + line_name(l) =~= names_outside(ns, imported));
            } else {
                assert(line_name(l) =~= seq![section_name(t)]);
            }
            assert((k + l.push('\n')).last() == '\n');
        }
    }
}

/// The remotes that a configuration names after an import: the existing
/// remotes that the import does not define again, in their order, then the
/// imported remotes in theirs.
pub proof fn lemma_merge_remote_names(existing: Seq<char>, imported: Seq<char>)
    ensures
        rclone_remote_names(merged_rclone_config(existing, imported)) == names_outside(
            rclone_remote_names(existing),
            rclone_remote_names(imported),
        ) + rclone_remote_names(imported),
{
    let names = rclone_remote_names(imported);
    let ls = lines(existing);
    lemma_lines_have_no_line_feed(existing);
    lemma_kept_lines(ls, names);
    let k = kept_lines(ls, names);
    let r = trim(imported).push('\n');
    lemma_names_of_trimmed(imported);
    if trim(k).len() > 0 {
        let ks = k + seq!['\n'];
        assert(merged_rclone_config(existing, imported) =~= ks + r);
        assert(all_white_space(seq!['\n']));
        lemma_names_append_white_space(k, seq!['\n']);
        lemma_lines_concat(ks, r);
        lemma_names_concat(lines(ks), lines(r));
    } else {
        assert(merged_rclone_config(existing, imported) =~= k + r);
        lemma_lines_concat(k, r);
        lemma_names_concat(lines(k), lines(r));
    }
}

fn contains_name(names: &Vec<Vec<char>>, name: &[char]) -> (r: bool)
    ensures
        r == char_lines(names@).contains(name@),
{
    let mut i: usize = 0;
    while i < names.len()
        invariant
            i <= names@.len(),
            forall|k: int| 0 <= k < i ==> names@[k]@ != name@,
        decreases names@.len() - i,
    {
        if same_chars(&names[i], name) {
            assert(char_lines(names@)[i as int] == name@);
            return true;
        }
        i = i + 1;
    }
    assert forall|k: int| 0 <= k < char_lines(names@).len() implies char_lines(names@)[k]
        != name@ by {
        assert(char_lines(names@)[k] == names@[k]@);
    }
    false
}

fn append_chars(out: &mut Vec<char>, more: &[char])
    ensures
        final(out)@ == old(out)@ + more@,
{
    let mut i: usize = 0;
    while i < more.len()
        invariant
            i <= more@.len(),
            out@ == old(out)@ + more@.take(i as int),
        decreases more@.len() - i,
    {
        out.push(more[i]);
        assert(more@.take(i + 1) =~= more@.take(i as int).push(more@[i as int]));
        i = i + 1;
    }
    assert(more@.take(more@.len() as int) =~= more@);
}

/// Imports the rclone configuration text `imported_config` into
/// `existing_config`: sections of the existing text whose remote the import
/// defines again are dropped, and the trimmed import is appended.
pub fn merge_rclone_config(existing_config: &str, imported_config: &str) -> (merged: String)
    ensures
        merged@ == merged_rclone_config(existing_config@, imported_config@),
{
    let imported = chars_of(imported_config);
    let imported_names = names_in_text(&imported);
    let existing = chars_of(existing_config);
    let ls = lines_of(&existing);
    let ghost names = char_lines(imported_names@);
    let mut output: Vec<char> = Vec::new();
    let mut skip_existing = false;
    let mut i: usize = 0;
    while i < ls.len()
        invariant
            i <= ls@.len(),
            char_lines(ls@) == lines(existing@),
            names == char_lines(imported_names@),
            skip_existing == section_replaced(char_lines(ls@).take(i as int), names),
            output@ == kept_lines(char_lines(ls@).take(i as int), names),
        decreases ls@.len() - i,
    {
        let ghost prefix = char_lines(ls@).take(i + 1);
        assert(prefix.drop_last() =~= char_lines(ls@).take(i as int));
        assert(prefix.last() == ls@[i as int]@);
        let t = trim_chars(&ls[i]);
        proof {
            lemma_trim_idempotent(ls@[i as int]@);
        }
        match section_name_of(&t) {
            Some(name) => {
                skip_existing = contains_name(&imported_names, &name);
            },
            None => {},
        }
        if !skip_existing {
            append_chars(&mut output, &ls[i]);
            output.push('\n');
        }
        i = i + 1;
    }
    assert(char_lines(ls@).take(ls@.len() as int) =~= char_lines(ls@));
    let (a, b) = trim_range(&output, false);
    if a < b {
        output.push('\n');
    }
    let trimmed = trim_chars(&imported);
    append_chars(&mut output, &trimmed);
    output.push('\n');
    string_of(&output)
}


/// The remote name that one line defines: its section name where the line
/// is a header with a non-empty name, none otherwise.
pub open spec fn line_name(l: Seq<char>) -> Seq<Seq<char>> {
    let t = trim(l);
    if is_section_header(t) && section_name(t).len() > 0 {
        seq![section_name(t)]
    } else {
        seq![]
    }
}

proof fn lemma_names_push(ls: Seq<Seq<char>>, l: Seq<char>)
    ensures
        names_in_lines(ls.push(l)) == names_in_lines(ls) + line_name(l),
{
    assert(ls.push(l).drop_last() =~= ls);
    assert(names_in_lines(ls) + seq![] =~= names_in_lines(ls));
}

proof fn lemma_names_concat(a: Seq<Seq<char>>, b: Seq<Seq<char>>)
    ensures
        names_in_lines(a + b) == names_in_lines(a) + names_in_lines(b),
    decreases b.len(),
{
    if b.len() == 0 {
        assert(a + b =~= a);
        assert(names_in_lines(a) + seq![] =~= names_in_lines(a));
    } else {
        assert(a + b =~= (a + b.drop_last()).push(b.last()));
        assert(b =~= b.drop_last().push(b.last()));
        lemma_names_concat(a, b.drop_last());
        lemma_names_push(a + b.drop_last(), b.last());
        lemma_names_push(b.drop_last(), b.last());
        assert(names_in_lines(a) + names_in_lines(b.drop_last()) + line_name(b.last())
            =~= names_in_lines(a) + (names_in_lines(b.drop_last()) + line_name(b.last())));
    }
}

proof fn lemma_names_same_trims(a: Seq<Seq<char>>, b: Seq<Seq<char>>)
    requires
        a.len() == b.len(),
        forall|i: int| 0 <= i < a.len() ==> trim(#[trigger] a[i]) == trim(b[i]),
    ensures
        names_in_lines(a) == names_in_lines(b),
    decreases a.len(),
{
    if a.len() > 0 {
        assert(trim(a[a.len() - 1]) == trim(b[b.len() - 1]));
        lemma_names_same_trims(a.drop_last(), b.drop_last());
    }
}

proof fn lemma_names_append_white_space_char(x: Seq<char>, c: char)
    requires
        is_white_space(c),
    ensures
        rclone_remote_names(x.push(c)) == rclone_remote_names(x),
{
    let (d, o) = line_scan(x);
    assert(x.push(c).drop_last() =~= x);
    assert(all_white_space(seq![c]));
    assert(trim(Seq::<char>::empty()).len() == 0);
    if c == '\n' {
        lemma_trim_strip_cr(o);
        lemma_names_push(d, strip_cr(o));
        if o.len() > 0 {
            lemma_names_push(d, o);
        } else {
            assert(names_in_lines(d) + seq![] =~= names_in_lines(d));
        }
    } else {
        assert(o + seq![c] =~= o.push(c));
        lemma_trim_append_white_space(o, seq![c]);
        lemma_names_push(d, o.push(c));
        if o.len() > 0 {
            lemma_names_push(d, o);
        } else {
            assert(names_in_lines(d) + seq![] =~= names_in_lines(d));
        }
    }
}

/// White space after a configuration text does not change the remotes it
/// names.
pub proof fn lemma_names_append_white_space(x: Seq<char>, w: Seq<char>)
    requires
        all_white_space(w),
    ensures
        rclone_remote_names(x + w) == rclone_remote_names(x),
    decreases w.len(),
{
    if w.len() > 0 {
        assert(all_white_space(w.drop_last()));
        lemma_names_append_white_space(x, w.drop_last());
        assert(x + w =~= (x + w.drop_last()).push(w.last()));
        lemma_names_append_white_space_char(x + w.drop_last(), w.last());
    } else {
        assert(x + w =~= x);
    }
}

/// How scanning a text with one white space character put in front relates
/// to scanning the text: a line feed in front adds one empty line; any other
/// character joins the first line, which keeps its trimmed form.
pub open spec fn scan_with_front(c: char, y: Seq<char>) -> bool {
    let (d1, o1) = line_scan(seq![c] + y);
    let (d2, o2) = line_scan(y);
    if c == '\n' {
        d1 == seq![Seq::<char>::empty()] + d2 && o1 == o2
    } else if d2.len() == 0 {
        d1.len() == 0 && o1 == seq![c] + o2
    } else {
        &&& d1.len() == d2.len()
        &&& trim(d1[0]) == trim(d2[0])
        &&& d1.skip(1) == d2.skip(1)
        &&& o1 == o2
    }
}

proof fn lemma_scan_with_front(c: char, y: Seq<char>)
    requires
        is_white_space(c),
    ensures
        scan_with_front(c, y),
    decreases y.len(),
{
    assert(all_white_space(seq![c]));
    if y.len() == 0 {
        assert(seq![c] + y =~= seq![c]);
        assert(seq![c].drop_last() =~= Seq::<char>::empty());
        assert(seq![c].last() == c);
        assert(line_scan(y) == (Seq::<Seq<char>>::empty(), Seq::<char>::empty()));
        assert(line_scan(seq![c].drop_last()) == (Seq::<Seq<char>>::empty(), Seq::<char>::empty()));
        if c == '\n' {
            assert(Seq::<Seq<char>>::empty().push(strip_cr(Seq::<char>::empty())) =~= seq![
                Seq::<char>::empty(),
            ]);
            assert(strip_cr(Seq::<char>::empty()) =~= Seq::<char>::empty());
            assert(line_scan(seq![c]) == (seq![Seq::<char>::empty()], Seq::<char>::empty()));
            assert(seq![Seq::<char>::empty()] + Seq::<Seq<char>>::empty() =~= seq![
                Seq::<char>::empty(),
            ]);
        } else {
            assert(Seq::<char>::empty().push(c) =~= seq![c] + Seq::<char>::empty());
            assert(line_scan(seq![c]) == (Seq::<Seq<char>>::empty(), seq![c]));
        }
        assert(scan_with_front(c, y));
    } else {
        let e = y.last();
        let y1 = y.drop_last();
        lemma_scan_with_front(c, y1);
        assert((seq![c] + y).drop_last() =~= seq![c] + y1);
        assert((seq![c] + y).last() == e);
        let (d1, o1) = line_scan(seq![c] + y1);
        let (d2, o2) = line_scan(y1);
        if c == '\n' {
            if e == '\n' {
                assert(seq![Seq::<char>::empty()] + d2.push(strip_cr(o2)) =~= (seq![
                    Seq::<char>::empty(),
                ] + d2).push(strip_cr(o2)));
            }
            assert(scan_with_front(c, y));
        } else if d2.len() == 0 {
            if e == '\n' {
                let a = strip_cr(seq![c] + o2);
                let b = strip_cr(o2);
                lemma_trim_strip_cr(seq![c] + o2);
                lemma_trim_strip_cr(o2);
                lemma_trim_prepend_white_space(seq![c], o2);
                assert(line_scan(seq![c] + y) == (d1.push(a), Seq::<char>::empty()));
                assert(line_scan(y) == (d2.push(b), Seq::<char>::empty()));
                assert(d1.push(a)[0] == a);
                assert(d2.push(b)[0] == b);
                assert(d1.push(a).skip(1) =~= d2.push(b).skip(1));
            } else {
                assert((seq![c] + o2).push(e) =~= seq![c] + o2.push(e));
            }
            assert(scan_with_front(c, y));
        } else {
            if e == '\n' {
                assert(d1.push(strip_cr(o1))[0] == d1[0]);
                assert(d2.push(strip_cr(o2))[0] == d2[0]);
                assert(d1.push(strip_cr(o1)).skip(1) =~= d1.skip(1).push(strip_cr(o1)));
                assert(d2.push(strip_cr(o2)).skip(1) =~= d2.skip(1).push(strip_cr(o2)));
            }
            assert(scan_with_front(c, y));
        }
    }
}

proof fn lemma_names_prepend_white_space_char(c: char, y: Seq<char>)
    requires
        is_white_space(c),
    ensures
        rclone_remote_names(seq![c] + y) == rclone_remote_names(y),
{
    lemma_scan_with_front(c, y);
    let (d1, o1) = line_scan(seq![c] + y);
    let (d2, o2) = line_scan(y);
    assert(all_white_space(seq![c]));
    assert(trim(Seq::<char>::empty()).len() == 0);
    if c == '\n' {
        let first = seq![Seq::<char>::empty()];
        lemma_names_push(Seq::<Seq<char>>::empty(), Seq::<char>::empty());
        assert(Seq::<Seq<char>>::empty().push(Seq::<char>::empty()) =~= first);
        assert(names_in_lines(first) =~= Seq::<Seq<char>>::empty());
        if o2.len() > 0 {
            assert((first + d2).push(o2) =~= first + d2.push(o2));
            lemma_names_concat(first, d2.push(o2));
            assert(Seq::<Seq<char>>::empty() + names_in_lines(d2.push(o2)) =~= names_in_lines(
                d2.push(o2),
            ));
        } else {
            lemma_names_concat(first, d2);
            assert(Seq::<Seq<char>>::empty() + names_in_lines(d2) =~= names_in_lines(d2));
        }
    } else if d2.len() == 0 {
        lemma_trim_prepend_white_space(seq![c], o2);
        lemma_names_push(d1, o1);
        lemma_names_push(d2, o2);
        assert(d1 =~= d2);
        if o2.len() == 0 {
            assert(names_in_lines(d2) + seq![] =~= names_in_lines(d2));
        }
    } else {
        assert forall|i: int| 0 <= i < d1.len() implies trim(#[trigger] d1[i]) == trim(d2[i]) by {
            if i > 0 {
                assert(d1[i] == d1.skip(1)[i - 1]);
                assert(d2[i] == d2.skip(1)[i - 1]);
            }
        }
        if o1.len() > 0 {
            assert forall|i: int| 0 <= i < d1.push(o1).len() implies trim(
                #[trigger] d1.push(o1)[i],
            ) == trim(d2.push(o2)[i]) by {
                if i < d1.len() {
                    assert(d1.push(o1)[i] == d1[i]);
                    assert(d2.push(o2)[i] == d2[i]);
                }
            }
            lemma_names_same_trims(d1.push(o1), d2.push(o2));
        } else {
            lemma_names_same_trims(d1, d2);
        }
    }
}

/// White space before a configuration text does not change the remotes it
/// names.
pub proof fn lemma_names_prepend_white_space(w: Seq<char>, y: Seq<char>)
    requires
        all_white_space(w),
    ensures
        rclone_remote_names(w + y) == rclone_remote_names(y),
    decreases w.len(),
{
    if w.len() > 0 {
        assert(all_white_space(w.drop_first()));
        lemma_names_prepend_white_space(w.drop_first(), y);
        assert(w + y =~= seq![w[0]] + (w.drop_first() + y));
        lemma_names_prepend_white_space_char(w[0], w.drop_first() + y);
    } else {
        assert(w + y =~= y);
    }
}

/// Trimming a configuration text and ending it with a line feed does not
/// change the remotes it names.
pub proof fn lemma_names_of_trimmed(s: Seq<char>)
    ensures
        rclone_remote_names(trim(s).push('\n')) == rclone_remote_names(s),
{
    let k1 = lemma_trim_start_split(s);
    let s1 = s.skip(k1);
    assert(s =~= s.take(k1) + s1);
    lemma_names_prepend_white_space(s.take(k1), s1);
    let k2 = lemma_trim_end_split(s1);
    assert(s1 =~= s1.take(k2) + s1.skip(k2));
    lemma_names_append_white_space(s1.take(k2), s1.skip(k2));
    assert(all_white_space(seq!['\n']));
    assert(trim(s).push('\n') =~= trim(s) + seq!['\n']);
    lemma_names_append_white_space(trim(s), seq!['\n']);
}

/// The `config/setpath` request that points rclone at a configuration file.
pub fn set_config_path_request(path: &str) -> (r: RcloneRequest)
    ensures
        r.method@ == "config/setpath"@,
        r.input@ == json_object(seq![("path"@, json_string(path@))]),
{
    let fields = vec![("path", json_string_text(path))];
    assert(field_views(fields@) =~= seq![("path"@, json_string(path@))]);
    RcloneRequest { method: "config/setpath".to_owned(), input: json_object_text(&fields) }
}

} // verus!
