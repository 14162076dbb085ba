//! Rewriting the package name in a package manifest.
//!
//! The text is read line by line through a small state machine: once a
//! `[package]` header has been seen, the first following `name =` line is
//! replaced, and nothing after that is touched.

use vstd::prelude::*;
use crate::text::{chars_of, matches_at, push_all, slice_chars, string_from_chars};

verus! {

/// The header that opens the package section.
pub const PACKAGE_HEADER: &'static str = "[package]";

/// The start of the line that holds the package name.
pub const NAME_KEY: &'static str = "name =";

/// What stands between `name =` and the name in a rewritten line.
pub const NAME_OPEN: &'static str = " \"";

/// What closes a rewritten name line.
pub const NAME_CLOSE: &'static str = "\"";

/// Where the rewrite stands after some lines.
#[derive(PartialEq, Eq, Structural, Clone, Copy, Debug)]
pub enum Phase {
    OutsideSection,
    InSectionAwaitingName,
    Done,
}

/// Unicode's White_Space property, which `char::is_whitespace` follows.
pub open spec fn is_white(c: char) -> bool {
    let u = c as u32;
    (0x9 <= u && u <= 0xd) || u == 0x20 || u == 0x85 || u == 0xa0 || u == 0x1680 || (0x2000 <= u
        && u <= 0x200a) || u == 0x2028 || u == 0x2029 || u == 0x202f || u == 0x205f || u == 0x3000
}

/// `s` without its leading white space.
pub open spec fn trim_start(s: Seq<char>) -> Seq<char>
    decreases s.len(),
{
    if s.len() > 0 && is_white(s[0]) {
        trim_start(s.skip(1))
    } else {
        s
    }
}

pub open spec fn starts_with(s: Seq<char>, prefix: Seq<char>) -> bool {
    prefix.len() <= s.len() && s.take(prefix.len() as int) == prefix
}

pub open spec fn opens_package(line: Seq<char>) -> bool {
    starts_with(trim_start(line), PACKAGE_HEADER@)
}

pub open spec fn is_name_line(line: Seq<char>) -> bool {
    starts_with(trim_start(line), NAME_KEY@)
}

/// The line that states `name` as the package name.
pub open spec fn name_line(name: Seq<char>) -> Seq<char> {
    NAME_KEY@ + NAME_OPEN@ + name + NAME_CLOSE@
}

pub open spec fn next_phase(phase: Phase, line: Seq<char>) -> Phase {
    match phase {
        Phase::Done => Phase::Done,
        Phase::OutsideSection => if opens_package(line) {
            Phase::InSectionAwaitingName
        } else {
            Phase::OutsideSection
        },
        Phase::InSectionAwaitingName => if opens_package(line) {
            Phase::InSectionAwaitingName
        } else if is_name_line(line) {
            Phase::Done
        } else {
            Phase::InSectionAwaitingName
        },
    }
}

/// What a line becomes in the phase it is read in.
pub open spec fn output_line(phase: Phase, line: Seq<char>, name: Seq<char>) -> Seq<char> {
    if phase == Phase::InSectionAwaitingName && !opens_package(line) && is_name_line(line) {
        name_line(name)
    } else {
        line
    }
}

/// `line` without one trailing carriage return.
pub open spec fn strip_cr(line: Seq<char>) -> Seq<char> {
    if line.len() > 0 && line.last() == '\r' {
        line.drop_last()
    } else {
        line
    }
}

/// The lines of `s` from a scan that stands at `i`, the current line having
/// begun at `start`. A line ends at `\n`, which it loses together with one
/// `\r` before it; a last line without `\n` is kept as it is, and an empty
/// rest gives no line.
pub open spec fn lines_from(s: Seq<char>, i: int, start: int) -> Seq<Seq<char>>
    decreases s.len() - i,
{
    if i >= s.len() {
        if start < s.len() {
            seq![s.subrange(start, s.len() as int)]
        } else {
            Seq::empty()
        }
    } else if s[i] == '\n' {
        seq![strip_cr(s.subrange(start, i))] + lines_from(s, i + 1, i + 1)
    } else {
        lines_from(s, i + 1, start)
    }
}

/// The lines of `s`, as `str::lines` splits them.
pub open spec fn lines_of(s: Seq<char>) -> Seq<Seq<char>> {
    lines_from(s, 0, 0)
}

/// The lines that `ls` become, read from `phase` on.
pub open spec fn output_lines(ls: Seq<Seq<char>>, phase: Phase, name: Seq<char>) -> Seq<Seq<char>>
    decreases ls.len(),
{
    if ls.len() == 0 {
        Seq::empty()
    } else {
        seq![output_line(phase, ls[0], name)] + output_lines(
            ls.drop_first(),
            next_phase(phase, ls[0]),
            name,
        )
    }
}

/// Each line followed by `\n`.
pub open spec fn join_lines(ls: Seq<Seq<char>>) -> Seq<char>
    decreases ls.len(),
{
    if ls.len() == 0 {
        Seq::empty()
    } else {
        ls[0] + seq!['\n'] + join_lines(ls.drop_first())
    }
}

/// The manifest `text` with its package name set to `name`.
pub open spec fn rewritten_manifest(text: Seq<char>, name: Seq<char>) -> Seq<char> {
    join_lines(output_lines(lines_of(text), Phase::OutsideSection, name))
}

fn is_white_char(c: char) -> (r: bool)
    ensures
        r == is_white(c),
{
    let u = c as u32;
    (0x9 <= u && u <= 0xd) || u == 0x20 || u == 0x85 || u == 0xa0 || u == 0x1680 || (0x2000 <= u
        && u <= 0x200a) || u == 0x2028 || u == 0x2029 || u == 0x202f || u == 0x205f || u == 0x3000
}

/// Tests whether `line`, without its leading white space, starts with `key`.
fn trimmed_starts_with(line: &Vec<char>, key: &Vec<char>) -> (r: bool)
    ensures
        r == starts_with(trim_start(line@), key@),
{
    let mut k: usize = 0;
    assert(line@.skip(0) =~= line@);
    while k < line.len() && is_white_char(line[k])
        invariant
            k <= line.len(),
            trim_start(line@) == trim_start(line@.skip(k as int)),
        decreases line.len() - k,
    {
        assert(line@.skip(k as int).skip(1) =~= line@.skip(k + 1));
        k += 1;
    }
    let r = matches_at(line, key, k);
    proof {
        let rest = line@.skip(k as int);
        assert(trim_start(rest) == rest);
        if key@.len() <= rest.len() {
            assert(rest.take(key@.len() as int) =~= line@.subrange(k as int, k + key@.len()));
        }
    }
    r
}

/// Reads one line in `phase`: appends what it becomes, and a `\n`, to `out`,
/// and returns the next phase.
fn step(
    phase: Phase,
    line: &Vec<char>,
    header: &Vec<char>,
    key: &Vec<char>,
    replacement: &Vec<char>,
    Ghost(name): Ghost<Seq<char>>,
    out: &mut Vec<char>,
) -> (r: Phase)
    requires
        header@ == PACKAGE_HEADER@,
        key@ == NAME_KEY@,
        replacement@ == name_line(name),
    ensures
        r == next_phase(phase, line@),
        final(out)@ == old(out)@ + output_line(phase, line@, name) + seq!['\n'],
{
    let opens = trimmed_starts_with(line, header);
    let next = match phase {
        Phase::Done => Phase::Done,
        Phase::OutsideSection => if opens {
            Phase::InSectionAwaitingName
        } else {
            Phase::OutsideSection
        },
        Phase::InSectionAwaitingName => if opens {
            Phase::InSectionAwaitingName
        } else if trimmed_starts_with(line, key) {
            Phase::Done
        } else {
            Phase::InSectionAwaitingName
        },
    };
    if phase == Phase::InSectionAwaitingName && next == Phase::Done {
        push_all(out, replacement);
    } else {
        push_all(out, line);
    }
    out.push('\n');
    next
}

/// Returns `toml_input` with the first `name = ...` line after a `[package]`
/// header set to `name = "<package_name>"`. Every line of the result ends in
/// `\n`; all other lines are kept as they are.
pub fn rewrite_package_name(toml_input: &str, package_name: &str) -> (r: String)
    ensures
        r@ == rewritten_manifest(toml_input@, package_name@),
{
    let s = chars_of(toml_input);
    let header = chars_of(PACKAGE_HEADER);
    let key = chars_of(NAME_KEY);
    let mut replacement = key.clone();
    push_all(&mut replacement, &chars_of(NAME_OPEN));
    push_all(&mut replacement, &chars_of(package_name));
    push_all(&mut replacement, &chars_of(NAME_CLOSE));
    let ghost name = package_name@;
    let ghost goal = rewritten_manifest(s@, name);
    let mut out: Vec<char> = Vec::new();
    let mut phase = Phase::OutsideSection;
    let mut start: usize = 0;
    let mut i: usize = 0;
    assert(out@ + join_lines(output_lines(lines_from(s@, 0, 0), phase, name)) =~= goal);
    while i < s.len()
        invariant
            start <= i <= s.len(),
            header@ == PACKAGE_HEADER@,
            key@ == NAME_KEY@,
            replacement@ == name_line(name),
            goal == rewritten_manifest(s@, name),
            out@ + join_lines(output_lines(lines_from(s@, i as int, start as int), phase, name))
                == goal,
        decreases s.len() - i,
    {
        if s[i] == '\n' {
            let mut end = i;
            if end > start && s[end - 1] == '\r' {
                end = end - 1;
            }
            let line = slice_chars(&s, start, end);
            proof {
                let whole = s@.subrange(start as int, i as int);
                if i > start && s@[i - 1] == '\r' {
                    assert(whole.drop_last() =~= line@);
                } else {
                    assert(whole =~= line@);
                }
            }
            let ghost rest = lines_from(s@, i + 1, i + 1);
            let ghost ls = seq![line@] + rest;
            assert(lines_from(s@, i as int, start as int) == ls);
            assert(ls.drop_first() =~= rest);
            let ghost before = out@;
            let ghost old_phase = phase;
            phase = step(phase, &line, &header, &key, &replacement, Ghost(name), &mut out);
            let ghost outs = output_lines(ls, old_phase, name);
            assert(outs.drop_first() =~= output_lines(rest, phase, name));
            assert(outs[0] == output_line(old_phase, line@, name));
            assert(out@ + join_lines(output_lines(rest, phase, name)) =~= before + join_lines(outs));
            start = i + 1;
        }
        i += 1;
    }
    if start < s.len() {
        let line = slice_chars(&s, start, s.len());
        let ghost ls = seq![line@];
        assert(lines_from(s@, i as int, start as int) == ls);
        let ghost before = out@;
        let ghost old_phase = phase;
        phase = step(phase, &line, &header, &key, &replacement, Ghost(name), &mut out);
        let ghost outs = output_lines(ls, old_phase, name);
        assert(ls.drop_first() =~= Seq::<Seq<char>>::empty());
        assert(output_lines(ls.drop_first(), phase, name) =~= Seq::<Seq<char>>::empty());
        assert(outs.drop_first() =~= Seq::<Seq<char>>::empty());
        assert(join_lines(outs.drop_first()) =~= Seq::<char>::empty());
        assert(out@ =~= before + join_lines(outs));
    } else {
        assert(out@ =~= goal);
    }
    string_from_chars(&out)
}

/// `l` holds no line feed.
pub open spec fn no_newline(l: Seq<char>) -> bool {
    forall|m: int| 0 <= m < l.len() ==> l[m] != '\n'
}

/// `l` ends in a carriage return.
pub open spec fn ends_in_cr(l: Seq<char>) -> bool {
    l.len() > 0 && l.last() == '\r'
}

/// Each of `ls` is a line that splitting gives back as it is.
pub open spec fn plain_lines(ls: Seq<Seq<char>>) -> bool {
    forall|k: int| 0 <= k < ls.len() ==> no_newline(#[trigger] ls[k]) && !ends_in_cr(ls[k])
}

proof fn lemma_scan_skips(s: Seq<char>, k: int, j: int, start: int)
    requires
        0 <= k <= j <= s.len(),
        forall|m: int| k <= m < j ==> s[m] != '\n',
    ensures
        lines_from(s, k, start) == lines_from(s, j, start),
    decreases j - k,
{
    if k < j {
        lemma_scan_skips(s, k + 1, j, start);
    }
}

proof fn lemma_lines_have_no_newline(s: Seq<char>, i: int, start: int)
    requires
        0 <= start <= i <= s.len(),
        forall|m: int| start <= m < i ==> s[m] != '\n',
    ensures
        forall|k: int|
            0 <= k < lines_from(s, i, start).len() ==> no_newline(#[trigger] lines_from(s, i, start)[k]),
    decreases s.len() - i,
{
    if i >= s.len() {
        if start < s.len() {
            let l = s.subrange(start, s.len() as int);
            assert(no_newline(l));
            assert(lines_from(s, i, start) == seq![l]);
            assert(lines_from(s, i, start)[0] == l);
        } else {
            assert(lines_from(s, i, start).len() == 0);
        }
    } else if s[i] == '\n' {
        lemma_lines_have_no_newline(s, i + 1, i + 1);
        let l = strip_cr(s.subrange(start, i));
        assert(no_newline(l));
        let rest = lines_from(s, i + 1, i + 1);
        assert forall|k: int| 0 <= k < lines_from(s, i, start).len() implies no_newline(
            #[trigger] lines_from(s, i, start)[k],
        ) by {
            if k > 0 {
                assert(lines_from(s, i, start)[k] == rest[k - 1]);
            }
        }
    } else {
        lemma_lines_have_no_newline(s, i + 1, start);
        assert(lines_from(s, i, start) == lines_from(s, i + 1, start));
    }
}

proof fn lemma_split_join(p: Seq<char>, ls: Seq<Seq<char>>)
    requires
        plain_lines(ls),
    ensures
        lines_from(p + join_lines(ls), p.len() as int, p.len() as int) == ls,
    decreases ls.len(),
{
    let s = p + join_lines(ls);
    if ls.len() == 0 {
        assert(s =~= p);
    } else {
        let l = ls[0];
        let rest = ls.drop_first();
        let q = p + l + seq!['\n'];
        assert(s =~= q + join_lines(rest));
        let j: int = (p.len() + l.len()) as int;
        assert(s.subrange(p.len() as int, j) =~= l);
        assert(s[j] == '\n');
        assert forall|m: int| p.len() <= m < j implies s[m] != '\n' by {
            assert(s[m] == l[m - p.len()]);
        }
        lemma_scan_skips(s, p.len() as int, j, p.len() as int);
        assert(plain_lines(rest)) by {
            assert forall|k: int| 0 <= k < rest.len() implies no_newline(#[trigger] rest[k])
                && !ends_in_cr(rest[k]) by {
                assert(rest[k] == ls[k + 1]);
            }
        }
        lemma_split_join(q, rest);
        assert(strip_cr(l) == l);
        assert(lines_from(s, j, p.len() as int) =~= seq![l] + lines_from(s, j + 1, j + 1));
        assert(seq![l] + rest =~= ls);
    }
}

proof fn lemma_output_lines_shape(ls: Seq<Seq<char>>, phase: Phase, name: Seq<char>)
    ensures
        output_lines(ls, phase, name).len() == ls.len(),
        forall|k: int|
            0 <= k < ls.len() ==> #[trigger] output_lines(ls, phase, name)[k] == ls[k]
                || output_lines(ls, phase, name)[k] == name_line(name),
    decreases ls.len(),
{
    if ls.len() > 0 {
        let rest = ls.drop_first();
        let next = next_phase(phase, ls[0]);
        lemma_output_lines_shape(rest, next, name);
        assert forall|k: int| 0 <= k < ls.len() implies #[trigger] output_lines(ls, phase, name)[k]
            == ls[k] || output_lines(ls, phase, name)[k] == name_line(name) by {
            if k > 0 {
                assert(output_lines(ls, phase, name)[k] == output_lines(rest, next, name)[k - 1]);
            }
        }
    }
}

proof fn lemma_name_line_facts(name: Seq<char>)
    ensures
        !opens_package(name_line(name)),
        is_name_line(name_line(name)),
        !ends_in_cr(name_line(name)),
        no_newline(name) ==> no_newline(name_line(name)),
{
    reveal_strlit("name =");
    reveal_strlit("[package]");
    reveal_strlit(" \"");
    reveal_strlit("\"");
    let l = name_line(name);
    assert(l[0] == 'n');
    assert(trim_start(l) == l);
    assert(l.take(NAME_KEY@.len() as int) =~= NAME_KEY@);
    assert(l.take(PACKAGE_HEADER@.len() as int)[0] == 'n');
    assert(l.last() == '"');
    if no_newline(name) {
        assert forall|m: int| 0 <= m < l.len() implies l[m] != '\n' by {
            if 8 <= m < 8 + name.len() {
                assert(l[m] == name[m - 8]);
            }
        }
    }
}

proof fn lemma_output_idempotent(ls: Seq<Seq<char>>, phase: Phase, name: Seq<char>)
    ensures
        output_lines(output_lines(ls, phase, name), phase, name) == output_lines(ls, phase, name),
    decreases ls.len(),
{
    if ls.len() > 0 {
        let o = output_lines(ls, phase, name);
        let l = ls[0];
        let rest = ls.drop_first();
        let next = next_phase(phase, l);
        lemma_name_line_facts(name);
        lemma_output_idempotent(rest, next, name);
        assert(o[0] == output_line(phase, l, name));
        assert(next_phase(phase, o[0]) == next);
        assert(output_line(phase, o[0], name) == o[0]);
        assert(o.drop_first() =~= output_lines(rest, next, name));
        assert(output_lines(o, phase, name) =~= seq![o[0]] + output_lines(rest, next, name));
    }
}

/// Rewriting a manifest a second time with the same name changes nothing:
/// the rewritten name line is found again and rewritten to itself. This
/// holds where the name has no line feed and no line of the manifest ends in
/// a carriage return that splitting leaves in place.
pub proof fn lemma_rewrite_idempotent(text: Seq<char>, name: Seq<char>)
    requires
        no_newline(name),
        forall|k: int| 0 <= k < lines_of(text).len() ==> !ends_in_cr(#[trigger] lines_of(text)[k]),
    ensures
        rewritten_manifest(rewritten_manifest(text, name), name) == rewritten_manifest(text, name),
{
    let ls = lines_of(text);
    let o = output_lines(ls, Phase::OutsideSection, name);
    lemma_lines_have_no_newline(text, 0, 0);
    lemma_output_lines_shape(ls, Phase::OutsideSection, name);
    lemma_name_line_facts(name);
    assert(plain_lines(o)) by {
        assert forall|k: int| 0 <= k < o.len() implies no_newline(#[trigger] o[k]) && !ends_in_cr(
            o[k],
        ) by {
            assert(o[k] == ls[k] || o[k] == name_line(name));
        }
    }
    lemma_split_join(Seq::empty(), o);
    assert(Seq::<char>::empty() + join_lines(o) =~= join_lines(o));
    lemma_output_idempotent(ls, Phase::OutsideSection, name);
}

proof fn lemma_done_keeps_lines(ls: Seq<Seq<char>>, name: Seq<char>)
    ensures
        output_lines(ls, Phase::Done, name) == ls,
    decreases ls.len(),
{
    if ls.len() > 0 {
        lemma_done_keeps_lines(ls.drop_first(), name);
        assert(output_lines(ls, Phase::Done, name) =~= ls);
    }
}

/// The rewrite changes at most one line: once a line has been replaced, every
/// later line is kept as it is, however many more `[package]` headers and
/// `name =` lines follow.
pub proof fn lemma_at_most_one_line_replaced(ls: Seq<Seq<char>>, phase: Phase, name: Seq<char>)
    ensures
        output_lines(ls, phase, name).len() == ls.len(),
        forall|a: int, b: int|
            0 <= a < b < ls.len() && #[trigger] output_lines(ls, phase, name)[a] != ls[a]
                ==> #[trigger] output_lines(ls, phase, name)[b] == ls[b],
    decreases ls.len(),
{
    lemma_output_lines_shape(ls, phase, name);
    if ls.len() > 0 {
        let o = output_lines(ls, phase, name);
        let rest = ls.drop_first();
        let next = next_phase(phase, ls[0]);
        lemma_at_most_one_line_replaced(rest, next, name);
        assert forall|a: int, b: int|
            0 <= a < b < ls.len() && #[trigger] o[a] != ls[a] implies #[trigger] o[b] == ls[b] by {
            assert(o[b] == output_lines(rest, next, name)[b - 1]);
            if a == 0 {
                assert(next == Phase::Done);
                lemma_done_keeps_lines(rest, name);
            } else {
                assert(o[a] == output_lines(rest, next, name)[a - 1]);
            }
        }
    }
}

/// The position of the first of `ls` that opens the package section.
pub open spec fn first_header(ls: Seq<Seq<char>>) -> Option<int>
    decreases ls.len(),
{
    if ls.len() == 0 {
        None
    } else if opens_package(ls[0]) {
        Some(0)
    } else {
        match first_header(ls.drop_first()) {
            Some(k) => Some(k + 1),
            None => None,
        }
    }
}

/// The position of the first of `ls` that is a `name =` line.
pub open spec fn first_name_line(ls: Seq<Seq<char>>) -> Option<int>
    decreases ls.len(),
{
    if ls.len() == 0 {
        None
    } else if is_name_line(ls[0]) {
        Some(0)
    } else {
        match first_name_line(ls.drop_first()) {
            Some(k) => Some(k + 1),
            None => None,
        }
    }
}

/// The position of the line that the rewrite replaces: the first `name =`
/// line after the first `[package]` header, where both exist.
pub open spec fn replaced_index(ls: Seq<Seq<char>>) -> Option<int> {
    match first_header(ls) {
        Some(j) => match first_name_line(ls.skip(j + 1)) {
            Some(k) => Some(j + 1 + k),
            None => None,
        },
        None => None,
    }
}

proof fn lemma_first_bounds(ls: Seq<Seq<char>>)
    ensures
        first_header(ls) is Some ==> 0 <= first_header(ls)->Some_0 < ls.len(),
        first_name_line(ls) is Some ==> 0 <= first_name_line(ls)->Some_0 < ls.len(),
    decreases ls.len(),
{
    if ls.len() > 0 {
        lemma_first_bounds(ls.drop_first());
    }
}

proof fn lemma_header_not_name(l: Seq<char>)
    ensures
        !(opens_package(l) && is_name_line(l)),
{
    reveal_strlit("name =");
    reveal_strlit("[package]");
    let t = trim_start(l);
    if opens_package(l) && is_name_line(l) {
        assert(t.take(PACKAGE_HEADER@.len() as int)[0] == t[0]);
        assert(t.take(NAME_KEY@.len() as int)[0] == t[0]);
    }
}

proof fn lemma_in_section(ls: Seq<Seq<char>>, name: Seq<char>)
    ensures
        output_lines(ls, Phase::InSectionAwaitingName, name).len() == ls.len(),
        forall|i: int|
            0 <= i < ls.len() ==> #[trigger] output_lines(ls, Phase::InSectionAwaitingName, name)[i]
                == if first_name_line(ls) == Some(i) {
                name_line(name)
            } else {
                ls[i]
            },
    decreases ls.len(),
{
    lemma_output_lines_shape(ls, Phase::InSectionAwaitingName, name);
    if ls.len() > 0 {
        let o = output_lines(ls, Phase::InSectionAwaitingName, name);
        let l = ls[0];
        let rest = ls.drop_first();
        lemma_header_not_name(l);
        if is_name_line(l) {
            lemma_done_keeps_lines(rest, name);
            assert(o[0] == output_line(Phase::InSectionAwaitingName, l, name));
            assert(first_name_line(ls) == Some(0int));
            assert forall|i: int| 0 <= i < ls.len() implies #[trigger] o[i] == if first_name_line(ls)
                == Some(i) {
                name_line(name)
            } else {
                ls[i]
            } by {
                if i > 0 {
                    assert(o[i] == output_lines(rest, Phase::Done, name)[i - 1]);
                    assert(rest[i - 1] == ls[i]);
                }
            }
        } else {
            lemma_in_section(rest, name);
            lemma_first_bounds(rest);
            assert(o[0] == output_line(Phase::InSectionAwaitingName, l, name));
            assert forall|i: int| 0 <= i < ls.len() implies #[trigger] o[i] == if first_name_line(ls)
                == Some(i) {
                name_line(name)
            } else {
                ls[i]
            } by {
                assert(first_name_line(ls) == Some(i) <==> first_name_line(rest) == Some(i - 1));
                if i > 0 {
                    assert(o[i] == output_lines(rest, Phase::InSectionAwaitingName, name)[i - 1]);
                    assert(rest[i - 1] == ls[i]);
                }
            }
        }
    }
}

proof fn lemma_outside(ls: Seq<Seq<char>>, name: Seq<char>)
    ensures
        output_lines(ls, Phase::OutsideSection, name).len() == ls.len(),
        forall|i: int|
            0 <= i < ls.len() ==> #[trigger] output_lines(ls, Phase::OutsideSection, name)[i]
                == if replaced_index(ls) == Some(i) {
                name_line(name)
            } else {
                ls[i]
            },
    decreases ls.len(),
{
    lemma_output_lines_shape(ls, Phase::OutsideSection, name);
    if ls.len() > 0 {
        let o = output_lines(ls, Phase::OutsideSection, name);
        let l = ls[0];
        let rest = ls.drop_first();
        if opens_package(l) {
            lemma_in_section(rest, name);
            lemma_first_bounds(rest);
            assert(ls.skip(1) =~= rest);
            assert(first_header(ls) == Some(0int));
            assert(o[0] == output_line(Phase::OutsideSection, l, name));
            assert forall|i: int| 0 <= i < ls.len() implies #[trigger] o[i] == if replaced_index(ls)
                == Some(i) {
                name_line(name)
            } else {
                ls[i]
            } by {
                assert(replaced_index(ls) == Some(i) <==> first_name_line(rest) == Some(i - 1));
                if i > 0 {
                    assert(o[i] == output_lines(rest, Phase::InSectionAwaitingName, name)[i - 1]);
                    assert(rest[i - 1] == ls[i]);
                }
            }
        } else {
            lemma_outside(rest, name);
            lemma_first_bounds(rest);
            assert(o[0] == output_line(Phase::OutsideSection, l, name));
            match first_header(rest) {
                Some(j) => {
                    assert(ls.skip(j + 2) =~= rest.skip(j + 1));
                    lemma_first_bounds(rest.skip(j + 1));
                },
                None => {},
            }
            assert forall|i: int| 0 <= i < ls.len() implies #[trigger] o[i] == if replaced_index(ls)
                == Some(i) {
                name_line(name)
            } else {
                ls[i]
            } by {
                assert(replaced_index(ls) == Some(i) <==> replaced_index(rest) == Some(i - 1));
                if i > 0 {
                    assert(o[i] == output_lines(rest, Phase::OutsideSection, name)[i - 1]);
                    assert(rest[i - 1] == ls[i]);
                }
            }
        }
    }
}

/// The rewrite keeps every line of the manifest but one: the first `name =`
/// line after the first `[package]` header, where both exist, becomes
/// `name = "<name>"`. Later `name =` lines and later `[package]` sections are
/// left as they are.
pub proof fn lemma_rewrite_replaces_first_name_line(text: Seq<char>, name: Seq<char>)
    ensures
        rewritten_manifest(text, name) == join_lines(
            Seq::new(
                lines_of(text).len(),
                |i: int|
                    if replaced_index(lines_of(text)) == Some(i) {
                        name_line(name)
                    } else {
                        lines_of(text)[i]
                    },
            ),
        ),
{
    let ls = lines_of(text);
    lemma_outside(ls, name);
    assert(output_lines(ls, Phase::OutsideSection, name) =~= Seq::new(
        ls.len(),
        |i: int|
            if replaced_index(ls) == Some(i) {
                name_line(name)
            } else {
                ls[i]
            },
    ));
}

} // verus!
