//! Identifier validation and name derivations.
use vstd::prelude::*;
use crate::error::McmodError;
use crate::text::{
    append_chars, append_str, chars_of, join_with, split_chars, split_on, string_of, upper_of,
    uppercase_char,
};

verus! {

pub open spec fn is_lower_alpha(c: char) -> bool {
    'a' <= c && c <= 'z'
}

pub open spec fn is_ident_char(c: char) -> bool {
    is_lower_alpha(c) || ('0' <= c && c <= '9') || c == '_'
}

/// `s` matches `^[a-z][a-z0-9_]*$`.
pub open spec fn is_ident(s: Seq<char>) -> bool {
    s.len() > 0 && is_lower_alpha(s[0]) && forall|i: int| 0 <= i < s.len() ==> is_ident_char(
        #[trigger] s[i],
    )
}

/// `s` matches `^[a-z][a-z0-9_]*(\.[a-z][a-z0-9_]*)*$`.
pub open spec fn is_package(s: Seq<char>) -> bool {
    let parts = split_on(s, '.');
    forall|i: int| 0 <= i < parts.len() ==> is_ident(#[trigger] parts[i])
}

fn ident(s: &[char]) -> (r: bool)
    ensures
        r == is_ident(s@),
{
    if s.len() == 0 || !('a' <= s[0] && s[0] <= 'z') {
        return false;
    }
    let mut i: usize = 0;
    while i < s.len()
        invariant
            i <= s@.len(),
            forall|j: int| 0 <= j < i ==> is_ident_char(#[trigger] s@[j]),
        decreases s@.len() - i,
    {
        let c = s[i];
        if !(('a' <= c && c <= 'z') || ('0' <= c && c <= '9') || c == '_') {
            return false;
        }
        i = i + 1;
    }
    true
}

/// Accepts a mod id that matches `^[a-z][a-z0-9_]*$`.
pub fn validate_mod_id(id: &str) -> (r: Result<(), McmodError>)
    ensures
        r is Ok <==> is_ident(id@),
        r matches Err(e) ==> e is InvalidModId && e->InvalidModId_0@ == id@,
{
    let cs = chars_of(id);
    if ident(cs.as_slice()) {
        Ok(())
    } else {
        Err(McmodError::InvalidModId(id.to_owned()))
    }
}

/// Accepts a package name of dot-separated identifiers.
pub fn validate_package(pkg: &str) -> (r: Result<(), McmodError>)
    ensures
        r is Ok <==> is_package(pkg@),
        r matches Err(e) ==> e is InvalidPackage && e->InvalidPackage_0@ == pkg@,
{
    let cs = chars_of(pkg);
    let parts = split_chars(cs.as_slice(), '.');
    let mut i: usize = 0;
    while i < parts.len()
        invariant
            i <= parts@.len(),
            crate::text::views(parts@) == split_on(pkg@, '.'),
            forall|j: int| 0 <= j < i ==> is_ident(#[trigger] split_on(pkg@, '.')[j]),
        decreases parts@.len() - i,
    {
        if !ident(parts[i].as_slice()) {
            assert(split_on(pkg@, '.')[i as int] == parts@[i as int]@);
            return Err(McmodError::InvalidPackage(pkg.to_owned()));
        }
        assert(split_on(pkg@, '.')[i as int] == parts@[i as int]@);
        i = i + 1;
    }
    Ok(())
}

/// `part` with its first character upper-cased.
pub open spec fn capitalized(part: Seq<char>) -> Seq<char> {
    upper_of(part[0]) + part.drop_first()
}

/// The non-empty pieces of `parts`, each capitalized.
pub open spec fn capitalized_words(parts: Seq<Seq<char>>) -> Seq<Seq<char>>
    decreases parts.len(),
{
    if parts.len() == 0 {
        Seq::<Seq<char>>::empty()
    } else if parts.last().len() == 0 {
        capitalized_words(parts.drop_last())
    } else {
        capitalized_words(parts.drop_last()).push(capitalized(parts.last()))
    }
}

/// The pieces of `ls` written one after another.
pub open spec fn concat_all(ls: Seq<Seq<char>>) -> Seq<char>
    decreases ls.len(),
{
    if ls.len() == 0 {
        Seq::<char>::empty()
    } else {
        concat_all(ls.drop_last()) + ls.last()
    }
}

/// `my_cool_mod` becomes `MyCoolMod`.
pub open spec fn pascal_case(s: Seq<char>) -> Seq<char> {
    concat_all(capitalized_words(split_on(s, '_')))
}

/// `my_cool_mod` becomes `My Cool Mod`.
pub open spec fn title_words(s: Seq<char>) -> Seq<char> {
    join_with(capitalized_words(split_on(s, '_')), ' ')
}

fn capitalized_words_of(s: &str) -> (r: Vec<Vec<char>>)
    ensures
        crate::text::views(r@) == capitalized_words(split_on(s@, '_')),
{
    let cs = chars_of(s);
    let parts = split_chars(cs.as_slice(), '_');
    let mut out: Vec<Vec<char>> = Vec::new();
    let mut i: usize = 0;
    while i < parts.len()
        invariant
            i <= parts@.len(),
            crate::text::views(parts@) == split_on(s@, '_'),
            crate::text::views(out@) == capitalized_words(split_on(s@, '_').take(i as int)),
        decreases parts@.len() - i,
    {
        let part = &parts[i];
        let ghost pv = split_on(s@, '_');
        proof {
            assert(pv.take(i as int + 1).drop_last() =~= pv.take(i as int));
            assert(pv[i as int] == part@);
        }
        if part.len() > 0 {
            let up = uppercase_char(part[0]);
            let mut word = chars_of(up.as_str());
            append_chars(&mut word, part.as_slice().split_at(1).1);
            let ghost before = crate::text::views(out@);
            out.push(word);
            assert(crate::text::views(out@) =~= before.push(word@));
        }
        i = i + 1;
    }
    assert(split_on(s@, '_').take(parts@.len() as int) =~= split_on(s@, '_'));
    out
}

/// Converts a snake_case name to PascalCase: `my_cool_mod` becomes `MyCoolMod`.
pub fn to_pascal_case(s: &str) -> (r: String)
    ensures
        r@ == pascal_case(s@),
{
    let words = capitalized_words_of(s);
    let mut out: Vec<char> = Vec::new();
    let mut i: usize = 0;
    while i < words.len()
        invariant
            i <= words@.len(),
            out@ == concat_all(crate::text::views(words@).take(i as int)),
            crate::text::views(words@) == capitalized_words(split_on(s@, '_')),
        decreases words@.len() - i,
    {
        proof {
            let wv = crate::text::views(words@);
            assert(wv.take(i as int + 1).drop_last() =~= wv.take(i as int));
        }
        append_chars(&mut out, words[i].as_slice());
        i = i + 1;
    }
    assert(crate::text::views(words@).take(words@.len() as int) =~= crate::text::views(words@));
    string_of(out.as_slice())
}

/// A display name made from a mod id: `my_cool_mod` becomes `My Cool Mod`.
pub fn default_mod_name(mod_id: &str) -> (r: String)
    ensures
        r@ == title_words(mod_id@),
{
    let words = capitalized_words_of(mod_id);
    let out = crate::text::join_chars(&words, ' ');
    string_of(out.as_slice())
}

/// The directory path of a package: dots become slashes.
pub open spec fn package_path(pkg: Seq<char>) -> Seq<char> {
    pkg.map_values(|c: char| if c == '.' { '/' } else { c })
}

/// Converts a package name to a directory path: `com.example.mymod` becomes
/// `com/example/mymod`.
pub fn package_to_path(pkg: &str) -> (r: String)
    ensures
        r@ == package_path(pkg@),
{
    let cs = chars_of(pkg);
    let mut out: Vec<char> = Vec::new();
    let mut i: usize = 0;
    while i < cs.len()
        invariant
            i <= cs@.len(),
            cs@ == pkg@,
            out@ == package_path(pkg@).take(i as int),
        decreases cs@.len() - i,
    {
        let c = cs[i];
        if c == '.' {
            out.push('/');
        } else {
            out.push(c);
        }
        i = i + 1;
        assert(out@ =~= package_path(pkg@).take(i as int));
    }
    assert(package_path(pkg@).take(i as int) =~= package_path(pkg@));
    string_of(out.as_slice())
}

/// The main class name of a mod: `my_mod` becomes `MyModMod`.
pub open spec fn class_name(mod_id: Seq<char>) -> Seq<char> {
    pascal_case(mod_id) + "Mod"@
}

/// Derives the main class name from a mod id: `my_mod` becomes `MyModMod`.
pub fn derive_class_name(mod_id: &str) -> (r: String)
    ensures
        r@ == class_name(mod_id@),
{
    let p = to_pascal_case(mod_id);
    let mut out = chars_of(p.as_str());
    append_str(&mut out, "Mod");
    string_of(out.as_slice())
}

/// The first two dot-separated components of a version, or the version itself
/// when it has a single component: `21.4.156` becomes `21.4`.
pub open spec fn major_minor(version: Seq<char>) -> Seq<char> {
    let parts = split_on(version, '.');
    if parts.len() >= 2 {
        parts[0] + seq!['.'] + parts[1]
    } else {
        version
    }
}

/// Extracts the NeoForge major version from a full version string.
pub fn neoforge_major(version: &str) -> (r: String)
    ensures
        r@ == major_minor(version@),
{
    let cs = chars_of(version);
    let parts = split_chars(cs.as_slice(), '.');
    if parts.len() >= 2 {
        let mut out: Vec<char> = Vec::new();
        append_chars(&mut out, parts[0].as_slice());
        out.push('.');
        append_chars(&mut out, parts[1].as_slice());
        assert(parts@[0]@ == split_on(version@, '.')[0]);
        assert(parts@[1]@ == split_on(version@, '.')[1]);
        assert(out@ =~= major_minor(version@));
        string_of(out.as_slice())
    } else {
        version.to_owned()
    }
}

} // verus!
