//! Idempotent line-level edits of generated build files: the include list and
//! the `key=value` property file.
//!
//! A text is read as its lines (the pieces between newlines) plus whether it
//! ends with a newline; every edit rewrites the lines and keeps that ending.
use vstd::prelude::*;
use crate::text::{
    all_free_of, append_chars, append_str, chars_of, contains, contains_chars, free_of,
    has_prefix, join_chars, join_with, lemma_join_occurs, lemma_split_free, lemma_split_join,
    lemma_join_split, occurs_at, same_chars, split_chars, split_on, starts_with, string_of, trim,
    trim_chars, views,
};

verus! {

pub open spec fn ends_with_newline(s: Seq<char>) -> bool {
    s.len() > 0 && s.last() == '\n'
}

/// The lines of `s`: the pieces between newlines, without the empty piece
/// that a final newline leaves.
pub open spec fn lines_of(s: Seq<char>) -> Seq<Seq<char>> {
    if s.len() == 0 {
        Seq::<Seq<char>>::empty()
    } else if ends_with_newline(s) {
        split_on(s.drop_last(), '\n')
    } else {
        split_on(s, '\n')
    }
}

/// The text made of `ls` joined by newlines, with a final newline when `nl`.
pub open spec fn text_of(ls: Seq<Seq<char>>, nl: bool) -> Seq<char> {
    join_with(ls, '\n') + if nl { seq!['\n'] } else { Seq::<char>::empty() }
}

/// Lines and ending that some text reads back as.
pub open spec fn well_formed_lines(ls: Seq<Seq<char>>, nl: bool) -> bool {
    &&& all_free_of(ls, '\n')
    &&& ls.len() == 0 ==> !nl
    &&& (!nl && ls.len() > 0) ==> ls.last().len() > 0
}

pub proof fn lemma_text_of_lines(s: Seq<char>)
    ensures
        text_of(lines_of(s), ends_with_newline(s)) == s,
        well_formed_lines(lines_of(s), ends_with_newline(s)),
{
    if s.len() == 0 {
        assert(text_of(lines_of(s), false) =~= s);
    } else if ends_with_newline(s) {
        lemma_join_split(s.drop_last(), '\n');
        lemma_split_free(s.drop_last(), '\n');
        assert(text_of(lines_of(s), true) =~= s);
    } else {
        lemma_join_split(s, '\n');
        lemma_split_free(s, '\n');
        assert(text_of(lines_of(s), false) =~= s);
    }
}

proof fn lemma_join_last(ls: Seq<Seq<char>>)
    requires
        ls.len() > 0,
        ls.last().len() > 0,
    ensures
        join_with(ls, '\n').len() > 0,
        join_with(ls, '\n').last() == ls.last().last(),
{
}

pub proof fn lemma_lines_of_text(ls: Seq<Seq<char>>, nl: bool)
    requires
        well_formed_lines(ls, nl),
    ensures
        lines_of(text_of(ls, nl)) == ls,
        ends_with_newline(text_of(ls, nl)) == nl,
{
    let t = text_of(ls, nl);
    if ls.len() == 0 {
        assert(t =~= Seq::<char>::empty());
    } else if nl {
        assert(t.drop_last() =~= join_with(ls, '\n'));
        lemma_split_join(ls, '\n');
    } else {
        assert(t =~= join_with(ls, '\n'));
        assert(free_of(ls.last(), '\n'));
        lemma_join_last(ls);
        lemma_split_join(ls, '\n');
    }
}

fn lines_vec(s: &[char]) -> (r: Vec<Vec<char>>)
    ensures
        views(r@) == lines_of(s@),
{
    if s.len() == 0 {
        let r: Vec<Vec<char>> = Vec::new();
        assert(views(r@) =~= lines_of(s@));
        r
    } else if s[s.len() - 1] == '\n' {
        let (body, _) = s.split_at(s.len() - 1);
        assert(body@ =~= s@.drop_last());
        split_chars(body, '\n')
    } else {
        split_chars(s, '\n')
    }
}

fn text_vec(ls: &Vec<Vec<char>>, nl: bool) -> (r: Vec<char>)
    ensures
        r@ == text_of(views(ls@), nl),
{
    let mut r = join_chars(ls, '\n');
    if nl {
        r.push('\n');
    }
    r
}

/// The include statement that registers `module`.
pub open spec fn include_line(module: Seq<char>) -> Seq<char> {
    "include(\""@ + module + "\")"@
}

pub open spec fn is_include(line: Seq<char>) -> bool {
    starts_with(trim(line), "include("@)
}

pub open spec fn is_root_name(line: Seq<char>) -> bool {
    starts_with(trim(line), "rootProject.name"@)
}

/// The index of the last include statement, or -1.
pub open spec fn last_include(ls: Seq<Seq<char>>) -> int
    decreases ls.len(),
{
    if ls.len() == 0 {
        -1
    } else if is_include(ls.last()) {
        ls.len() - 1
    } else {
        last_include(ls.drop_last())
    }
}

/// The index of the first root-name line, or the number of lines.
pub open spec fn first_root_name(ls: Seq<Seq<char>>) -> int
    decreases ls.len(),
{
    if ls.len() == 0 {
        0
    } else if is_root_name(ls[0]) {
        0
    } else {
        1 + first_root_name(ls.drop_first())
    }
}

/// Where a new include goes: after the last include, else before the root
/// name, else at the end.
pub open spec fn include_position(ls: Seq<Seq<char>>) -> int {
    if last_include(ls) >= 0 {
        last_include(ls) + 1
    } else {
        first_root_name(ls)
    }
}

/// The include list `s` with `module` registered.
pub open spec fn with_include(s: Seq<char>, module: Seq<char>) -> Seq<char> {
    if contains(s, include_line(module)) {
        s
    } else {
        let ls = lines_of(s);
        text_of(ls.insert(include_position(ls), include_line(module)), ends_with_newline(s))
    }
}

proof fn lemma_last_include_range(ls: Seq<Seq<char>>)
    ensures
        -1 <= last_include(ls) < ls.len(),
        last_include(ls) >= 0 ==> is_include(ls[last_include(ls)]),
        forall|j: int| last_include(ls) < j < ls.len() ==> !is_include(#[trigger] ls[j]),
    decreases ls.len(),
{
    if ls.len() > 0 && !is_include(ls.last()) {
        lemma_last_include_range(ls.drop_last());
        assert forall|j: int| last_include(ls) < j < ls.len() implies !is_include(#[trigger] ls[j]) by {
            if j < ls.len() - 1 {
                assert(ls[j] == ls.drop_last()[j]);
            }
        }
    }
}

proof fn lemma_first_root_range(ls: Seq<Seq<char>>)
    ensures
        0 <= first_root_name(ls) <= ls.len(),
        forall|j: int| 0 <= j < first_root_name(ls) ==> !is_root_name(#[trigger] ls[j]),
        first_root_name(ls) < ls.len() ==> is_root_name(ls[first_root_name(ls)]),
    decreases ls.len(),
{
    if ls.len() > 0 && !is_root_name(ls[0]) {
        lemma_first_root_range(ls.drop_first());
        assert forall|j: int| 0 <= j < first_root_name(ls) implies !is_root_name(#[trigger] ls[j]) by {
            if j > 0 {
                assert(ls[j] == ls.drop_first()[j - 1]);
            }
        }
    }
}

fn line_is(line: &[char], head: &str) -> (r: bool)
    ensures
        r == starts_with(trim(line@), head@),
{
    let t = trim_chars(line);
    let h = chars_of(head);
    has_prefix(t.as_slice(), h.as_slice())
}

/// Registers `module` in the include list `content`, unless its include
/// statement already occurs there. The new statement goes right after the last
/// include statement, else right before the root-name line, else at the end.
pub fn add_include_to_settings(content: &str, module: &str) -> (r: String)
    ensures
        r@ == with_include(content@, module@),
{
    let cs = chars_of(content);
    let mut inc: Vec<char> = Vec::new();
    append_str(&mut inc, "include(\"");
    append_str(&mut inc, module);
    append_str(&mut inc, "\")");
    assert(inc@ == include_line(module@));
    if contains_chars(cs.as_slice(), inc.as_slice()) {
        return content.to_owned();
    }
    let mut ls = lines_vec(cs.as_slice());
    let ghost lv = views(ls@);
    let mut last: usize = 0;
    let mut found = false;
    let mut i: usize = 0;
    while i < ls.len()
        invariant
            i <= ls@.len(),
            lv == views(ls@),
            found ==> last < i && last_include(lv.take(i as int)) == last,
            !found ==> last_include(lv.take(i as int)) == -1,
        decreases ls@.len() - i,
    {
        assert(lv.take(i as int + 1).drop_last() =~= lv.take(i as int));
        if line_is(ls[i].as_slice(), "include(") {
            last = i;
            found = true;
        }
        i = i + 1;
    }
    assert(lv.take(i as int) =~= lv);
    let pos: usize;
    if found {
        pos = last + 1;
    } else {
        let mut j: usize = 0;
        while j < ls.len() && !line_is(ls[j].as_slice(), "rootProject.name")
            invariant
                j <= ls@.len(),
                lv == views(ls@),
                first_root_name(lv) == j + first_root_name(lv.skip(j as int)),
            decreases ls@.len() - j,
        {
            assert(lv.skip(j as int).drop_first() =~= lv.skip(j as int + 1));
            j = j + 1;
        }
        if j < ls.len() {
            assert(lv.skip(j as int)[0] == lv[j as int]);
        } else {
            assert(lv.skip(j as int).len() == 0);
        }
        pos = j;
    }
    assert(lv.skip(0) =~= lv);
    proof {
        lemma_last_include_range(lv);
        lemma_first_root_range(lv);
    }
    assert(pos as int == include_position(lv));
    ls.insert(pos, inc);
    assert(views(ls@) =~= lv.insert(pos as int, include_line(module@)));
    let nl = cs.len() > 0 && cs[cs.len() - 1] == '\n';
    let out = text_vec(&ls, nl);
    string_of(out.as_slice())
}

proof fn lemma_insert_well_formed(ls: Seq<Seq<char>>, nl: bool, p: int, line: Seq<char>)
    requires
        well_formed_lines(ls, nl),
        0 <= p <= ls.len(),
        free_of(line, '\n'),
        line.len() > 0,
    ensures
        well_formed_lines(ls.insert(p, line), nl),
{
    let r = ls.insert(p, line);
    assert forall|i: int| 0 <= i < r.len() implies free_of(#[trigger] r[i], '\n') by {
        if i < p {
            assert(r[i] == ls[i]);
        } else if i > p {
            assert(r[i] == ls[i - 1]);
        }
    }
}

proof fn lemma_trim_plain(s: Seq<char>)
    requires
        s.len() > 0,
        !crate::text::is_white(s[0]),
        !crate::text::is_white(s.last()),
    ensures
        trim(s) == s,
{
}

proof fn lemma_include_line_shape(module: Seq<char>)
    requires
        free_of(module, '\n'),
    ensures
        free_of(include_line(module), '\n'),
        include_line(module).len() > 0,
        is_include(include_line(module)),
{
    reveal_strlit("include(\"");
    reveal_strlit("\")");
    reveal_strlit("include(");
    let l = include_line(module);
    assert forall|i: int| 0 <= i < l.len() implies l[i] != '\n' by {
        if i >= 9 && i < 9 + module.len() {
            assert(l[i] == module[i - 9]);
        }
    }
    lemma_trim_plain(l);
    assert(l.subrange(0, 8) =~= "include("@);
}

/// After registering `module`, its include statement occurs in the text.
proof fn lemma_include_present(s: Seq<char>, module: Seq<char>)
    ensures
        contains(with_include(s, module), include_line(module)),
{
    let inc = include_line(module);
    if !contains(s, inc) {
        let ls = lines_of(s);
        lemma_last_include_range(ls);
        lemma_first_root_range(ls);
        let p = include_position(ls);
        let ls1 = ls.insert(p, inc);
        lemma_join_occurs(ls1, '\n', p);
        let k = join_with(ls1.take(p), '\n').len() + (if p > 0 { 1int } else { 0int });
        let t = with_include(s, module);
        assert(t.subrange(k, k + inc.len()) =~= join_with(ls1, '\n').subrange(k, k + inc.len()));
        assert(occurs_at(t, inc, k));
    }
}

/// Registering the same module twice gives the same text as registering it once.
pub proof fn lemma_include_idempotent(s: Seq<char>, module: Seq<char>)
    ensures
        with_include(with_include(s, module), module) == with_include(s, module),
{
    lemma_include_present(s, module);
}

/// Registering module `a` and then module `b` puts `a`'s include statement on
/// an earlier line than `b`'s: insertion order is kept, not sorted.
pub proof fn lemma_include_order(s: Seq<char>, a: Seq<char>, b: Seq<char>)
    requires
        free_of(a, '\n'),
        free_of(b, '\n'),
        !contains(s, include_line(a)),
        !contains(with_include(s, a), include_line(b)),
    ensures
        exists|i: int, j: int|
            0 <= i < j < lines_of(with_include(with_include(s, a), b)).len()
                && lines_of(with_include(with_include(s, a), b))[i] == include_line(a)
                && lines_of(with_include(with_include(s, a), b))[j] == include_line(b),
{
    let nl = ends_with_newline(s);
    let ls = lines_of(s);
    lemma_text_of_lines(s);
    lemma_last_include_range(ls);
    lemma_first_root_range(ls);
    lemma_include_line_shape(a);
    lemma_include_line_shape(b);
    let p = include_position(ls);
    let ls1 = ls.insert(p, include_line(a));
    lemma_insert_well_formed(ls, nl, p, include_line(a));
    let t1 = with_include(s, a);
    lemma_lines_of_text(ls1, nl);
    assert(lines_of(t1) == ls1);
    lemma_last_include_range(ls1);
    lemma_first_root_range(ls1);
    assert(ls1[p] == include_line(a));
    assert(last_include(ls1) >= p);
    let q = include_position(ls1);
    let ls2 = ls1.insert(q, include_line(b));
    lemma_insert_well_formed(ls1, nl, q, include_line(b));
    lemma_lines_of_text(ls2, nl);
    assert(ls2[p] == include_line(a));
    assert(ls2[q] == include_line(b));
    assert(t1 == text_of(ls1, nl));
    assert(with_include(t1, b) == text_of(ls2, nl));
    assert(lines_of(with_include(t1, b)) == ls2);
    assert(p < q);
}

/// The line that sets `key` to `value`.
pub open spec fn property_line(key: Seq<char>, value: Seq<char>) -> Seq<char> {
    key + "="@ + value
}

/// `line` sets `key`, or holds a commented-out setting of it.
pub open spec fn sets_key(line: Seq<char>, key: Seq<char>) -> bool {
    starts_with(line, key + "="@) || starts_with(line, "# "@ + key + "="@)
}

/// The index of the first line that sets `key`, or the number of lines.
pub open spec fn first_setting(ls: Seq<Seq<char>>, key: Seq<char>) -> int
    decreases ls.len(),
{
    if ls.len() == 0 {
        0
    } else if sets_key(ls[0], key) {
        0
    } else {
        1 + first_setting(ls.drop_first(), key)
    }
}

/// The property file `s` with `key` set to `value`: the first line that sets
/// it is replaced, else the setting is appended.
pub open spec fn with_property(s: Seq<char>, key: Seq<char>, value: Seq<char>) -> Seq<char> {
    let ls = lines_of(s);
    let i = first_setting(ls, key);
    let line = property_line(key, value);
    text_of(
        if i < ls.len() { ls.update(i, line) } else { ls.push(line) },
        ends_with_newline(s),
    )
}

proof fn lemma_first_setting_range(ls: Seq<Seq<char>>, key: Seq<char>)
    ensures
        0 <= first_setting(ls, key) <= ls.len(),
        forall|j: int| 0 <= j < first_setting(ls, key) ==> !sets_key(#[trigger] ls[j], key),
        first_setting(ls, key) < ls.len() ==> sets_key(ls[first_setting(ls, key)], key),
    decreases ls.len(),
{
    if ls.len() > 0 && !sets_key(ls[0], key) {
        lemma_first_setting_range(ls.drop_first(), key);
        assert forall|j: int| 0 <= j < first_setting(ls, key) implies !sets_key(#[trigger] ls[j], key) by {
            if j > 0 {
                assert(ls[j] == ls.drop_first()[j - 1]);
            }
        }
    }
}

/// Sets `key` to `value` in the property file `content`: the first line that
/// sets the key (or holds it commented out as `# key=`) becomes `key=value`;
/// when there is none, `key=value` is appended.
pub fn set_gradle_property(content: &str, key: &str, value: &str) -> (r: String)
    ensures
        r@ == with_property(content@, key@, value@),
{
    let cs = chars_of(content);
    let mut prefix: Vec<char> = Vec::new();
    append_str(&mut prefix, key);
    append_str(&mut prefix, "=");
    let mut commented: Vec<char> = Vec::new();
    append_str(&mut commented, "# ");
    append_chars(&mut commented, prefix.as_slice());
    let mut line = prefix.clone();
    append_str(&mut line, value);
    assert(line@ == property_line(key@, value@));
    assert(prefix@ =~= key@ + "="@);
    assert(commented@ =~= "# "@ + key@ + "="@);
    let mut ls = lines_vec(cs.as_slice());
    let ghost lv = views(ls@);
    assert(lv.skip(0) =~= lv);
    let mut i: usize = 0;
    while i < ls.len() && !(has_prefix(ls[i].as_slice(), prefix.as_slice())
        || has_prefix(ls[i].as_slice(), commented.as_slice()))
        invariant
            i <= ls@.len(),
            lv == views(ls@),
            first_setting(lv, key@) == i + first_setting(lv.skip(i as int), key@),
            prefix@ == key@ + "="@,
            commented@ == "# "@ + key@ + "="@,
        decreases ls@.len() - i,
    {
        assert(lv.skip(i as int).drop_first() =~= lv.skip(i as int + 1));
        assert(lv.skip(i as int)[0] == ls@[i as int]@);
        i = i + 1;
    }
    if i < ls.len() {
        assert(lv.skip(i as int)[0] == lv[i as int]);
        ls.set(i, line);
        assert(views(ls@) =~= lv.update(i as int, property_line(key@, value@)));
    } else {
        assert(lv.skip(i as int).len() == 0);
        ls.push(line);
        assert(views(ls@) =~= lv.push(property_line(key@, value@)));
    }
    let nl = cs.len() > 0 && cs[cs.len() - 1] == '\n';
    let out = text_vec(&ls, nl);
    string_of(out.as_slice())
}

/// Setting a key touches only the first line that sets it, or appends exactly
/// one line when none does; every other line keeps its place and text.
pub proof fn lemma_property_edit(s: Seq<char>, key: Seq<char>, value: Seq<char>)
    requires
        free_of(key, '\n'),
        free_of(value, '\n'),
    ensures
        ({
            let ls = lines_of(s);
            let out = lines_of(with_property(s, key, value));
            let i = first_setting(ls, key);
            &&& forall|j: int| 0 <= j < i ==> !sets_key(#[trigger] ls[j], key)
            &&& i < ls.len() ==> {
                &&& sets_key(ls[i], key)
                &&& out.len() == ls.len()
                &&& out[i] == property_line(key, value)
                &&& forall|j: int| 0 <= j < ls.len() && j != i ==> out[j] == ls[j]
            }
            &&& i >= ls.len() ==> out == ls.push(property_line(key, value))
        }),
{
    let ls = lines_of(s);
    let nl = ends_with_newline(s);
    let line = property_line(key, value);
    lemma_text_of_lines(s);
    lemma_first_setting_range(ls, key);
    reveal_strlit("=");
    assert(free_of(line, '\n')) by {
        assert forall|k: int| 0 <= k < line.len() implies line[k] != '\n' by {
            if k < key.len() {
                assert(line[k] == key[k]);
            } else if k > key.len() {
                assert(line[k] == value[k - key.len() - 1]);
            }
        }
    }
    let i = first_setting(ls, key);
    if i < ls.len() {
        let ls2 = ls.update(i, line);
        assert(well_formed_lines(ls2, nl)) by {
            assert forall|k: int| 0 <= k < ls2.len() implies free_of(#[trigger] ls2[k], '\n') by {
                if k != i {
                    assert(ls2[k] == ls[k]);
                }
            }
        }
        lemma_lines_of_text(ls2, nl);
    } else {
        let ls2 = ls.push(line);
        assert(well_formed_lines(ls2, nl)) by {
            assert forall|k: int| 0 <= k < ls2.len() implies free_of(#[trigger] ls2[k], '\n') by {
                if k < ls.len() {
                    assert(ls2[k] == ls[k]);
                }
            }
        }
        lemma_lines_of_text(ls2, nl);
    }
}

/// The key of the comma-separated list of enabled platforms, with its `=`.
pub open spec fn platforms_key() -> Seq<char> {
    "enabled_platforms="@
}

/// `s` with every leading repetition of `p` removed.
pub open spec fn strip_leading(s: Seq<char>, p: Seq<char>) -> Seq<char>
    decreases s.len(),
{
    if p.len() > 0 && starts_with(s, p) {
        strip_leading(s.skip(p.len() as int), p)
    } else {
        s
    }
}

/// The trimmed comma-separated tokens of `value`.
pub open spec fn tokens_of(value: Seq<char>) -> Seq<Seq<char>> {
    split_on(value, ',').map_values(|t: Seq<char>| trim(t))
}

/// The platforms line `line` with `platform` added to its list, unless the
/// list already holds it.
pub open spec fn with_platform_line(line: Seq<char>, platform: Seq<char>) -> Seq<char> {
    let toks = tokens_of(strip_leading(line, platforms_key()));
    if toks.contains(platform) {
        line
    } else {
        platforms_key() + join_with(toks.push(platform), ',')
    }
}

/// The index of the first line that starts with `p`, or the number of lines.
pub open spec fn first_prefixed(ls: Seq<Seq<char>>, p: Seq<char>) -> int
    decreases ls.len(),
{
    if ls.len() == 0 {
        0
    } else if starts_with(ls[0], p) {
        0
    } else {
        1 + first_prefixed(ls.drop_first(), p)
    }
}

proof fn lemma_first_prefixed_range(ls: Seq<Seq<char>>, p: Seq<char>)
    ensures
        0 <= first_prefixed(ls, p) <= ls.len(),
    decreases ls.len(),
{
    if ls.len() > 0 && !starts_with(ls[0], p) {
        lemma_first_prefixed_range(ls.drop_first(), p);
    }
}

/// The property file `s` with `platform` in its list of enabled platforms.
/// Without such a list the file stays as it is.
pub open spec fn with_platform(s: Seq<char>, platform: Seq<char>) -> Seq<char> {
    let ls = lines_of(s);
    let i = first_prefixed(ls, platforms_key());
    if i < ls.len() {
        text_of(ls.update(i, with_platform_line(ls[i], platform)), ends_with_newline(s))
    } else {
        s
    }
}

fn platform_line(line: &[char], key: &[char], platform: &str) -> (r: Vec<char>)
    requires
        key@ == platforms_key(),
    ensures
        r@ == with_platform_line(line@, platform@),
{
    proof {
        reveal_strlit("enabled_platforms=");
    }
    assert(key@.len() > 0);
    let mut rest: &[char] = line;
    while has_prefix(rest, key)
        invariant
            key@ == platforms_key(),
            key@.len() > 0,
            strip_leading(rest@, key@) == strip_leading(line@, key@),
        decreases rest@.len(),
    {
        let (_, tail) = rest.split_at(key.len());
        assert(tail@ =~= rest@.skip(key@.len() as int));
        rest = tail;
    }
    let pieces = split_chars(rest, ',');
    let mut toks: Vec<Vec<char>> = Vec::new();
    let mut i: usize = 0;
    while i < pieces.len()
        invariant
            i <= pieces@.len(),
            views(pieces@) == split_on(rest@, ','),
            views(toks@) == tokens_of(rest@).take(i as int),
        decreases pieces@.len() - i,
    {
        let t = trim_chars(pieces[i].as_slice());
        assert(split_on(rest@, ',')[i as int] == pieces@[i as int]@);
        assert(tokens_of(rest@)[i as int] == trim(split_on(rest@, ',')[i as int]));
        let ghost before = views(toks@);
        toks.push(t);
        assert(views(toks@) =~= before.push(t@));
        assert(tokens_of(rest@).take(i as int + 1) =~= tokens_of(rest@).take(i as int).push(
            tokens_of(rest@)[i as int],
        ));
        i = i + 1;
    }
    assert(views(toks@) =~= tokens_of(rest@));
    let pv = chars_of(platform);
    let mut present = false;
    let mut j: usize = 0;
    while j < toks.len() && !present
        invariant
            j <= toks@.len(),
            views(toks@) == tokens_of(rest@),
            pv@ == platform@,
            !present ==> forall|k: int| 0 <= k < j ==> views(toks@)[k] != platform@,
            present ==> 0 < j && views(toks@)[j - 1] == platform@,
        decreases toks@.len() - j,
    {
        assert(views(toks@)[j as int] == toks@[j as int]@);
        if same_chars(toks[j].as_slice(), pv.as_slice()) {
            present = true;
        }
        j = j + 1;
    }
    if present {
        assert(tokens_of(rest@).contains(platform@)) by {
            assert(tokens_of(rest@)[j - 1] == platform@);
        }
        let mut r: Vec<char> = Vec::new();
        append_chars(&mut r, line);
        r
    } else {
        assert(!tokens_of(rest@).contains(platform@));
        let ghost before = views(toks@);
        toks.push(pv);
        assert(views(toks@) =~= before.push(platform@));
        let mut r: Vec<char> = Vec::new();
        append_chars(&mut r, key);
        let joined = join_chars(&toks, ',');
        append_chars(&mut r, joined.as_slice());
        r
    }
}

/// Adds `platform` to the comma-separated `enabled_platforms` value of the
/// property file `content`, unless the value already lists it. Only the first
/// such line is looked at; the tokens keep their order.
pub fn add_platform_to_gradle_properties(content: &str, platform: &str) -> (r: String)
    ensures
        r@ == with_platform(content@, platform@),
{
    let cs = chars_of(content);
    let key = chars_of("enabled_platforms=");
    let mut ls = lines_vec(cs.as_slice());
    let ghost lv = views(ls@);
    assert(lv.skip(0) =~= lv);
    let mut i: usize = 0;
    while i < ls.len() && !has_prefix(ls[i].as_slice(), key.as_slice())
        invariant
            i <= ls@.len(),
            lv == views(ls@),
            key@ == platforms_key(),
            first_prefixed(lv, key@) == i + first_prefixed(lv.skip(i as int), key@),
        decreases ls@.len() - i,
    {
        assert(lv.skip(i as int).drop_first() =~= lv.skip(i as int + 1));
        assert(lv.skip(i as int)[0] == ls@[i as int]@);
        i = i + 1;
    }
    if i < ls.len() {
        assert(lv.skip(i as int)[0] == lv[i as int]);
        let line = platform_line(ls[i].as_slice(), key.as_slice(), platform);
        ls.set(i, line);
        assert(views(ls@) =~= lv.update(i as int, with_platform_line(lv[i as int], platform@)));
        let nl = cs.len() > 0 && cs[cs.len() - 1] == '\n';
        let out = text_vec(&ls, nl);
        string_of(out.as_slice())
    } else {
        assert(lv.skip(i as int).len() == 0);
        content.to_owned()
    }
}

/// Adding a platform that the list already holds changes nothing: the tokens
/// keep their order and number.
pub proof fn lemma_platform_present(s: Seq<char>, platform: Seq<char>)
    requires
        ({
            let ls = lines_of(s);
            let i = first_prefixed(ls, platforms_key());
            i < ls.len() ==> tokens_of(strip_leading(ls[i], platforms_key())).contains(platform)
        }),
    ensures
        with_platform(s, platform) == s,
{
    let ls = lines_of(s);
    lemma_text_of_lines(s);
    lemma_first_prefixed_range(ls, platforms_key());
    let i = first_prefixed(ls, platforms_key());
    if i < ls.len() {
        assert(tokens_of(strip_leading(ls[i], platforms_key())).contains(platform));
        assert(with_platform_line(ls[i], platform) == ls[i]);
        assert(ls.update(i, with_platform_line(ls[i], platform)) =~= ls);
    }
}

} // verus!
