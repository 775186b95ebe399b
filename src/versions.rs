//! Choosing versions from the release listings of the game and the loaders.
use vstd::prelude::*;
use crate::error::McmodError;
use crate::text::{
    append_chars, append_str, chars_of, has_prefix, join_chars, join_with, split_chars, split_on,
    starts_with, string_of, trim, trim_chars, views,
};

verus! {

pub open spec fn ends_with(s: Seq<char>, p: Seq<char>) -> bool {
    p.len() <= s.len() && s.subrange(s.len() - p.len(), s.len() as int) == p
}

/// The version that a maven metadata line lists, if it is a
/// `<version>...</version>` line (surrounding whitespace aside).
pub open spec fn listed_version(line: Seq<char>) -> Option<Seq<char>> {
    let t = trim(line);
    if t.len() >= 19 && starts_with(t, "<version>"@) && ends_with(t, "</version>"@) {
        Some(t.subrange(9, t.len() - 10))
    } else {
        None
    }
}

/// The last version listed in `lines` that `wanted` accepts, scanning from
/// the first line.
pub open spec fn last_listed(lines: Seq<Seq<char>>, wanted: spec_fn(Seq<char>) -> bool) -> Option<Seq<char>>
    decreases lines.len(),
{
    if lines.len() == 0 {
        None
    } else {
        match listed_version(lines.last()) {
            Some(v) => if wanted(v) {
                Some(v)
            } else {
                last_listed(lines.drop_last(), wanted)
            },
            None => last_listed(lines.drop_last(), wanted),
        }
    }
}

fn ends_with_chars(s: &[char], p: &[char]) -> (r: bool)
    ensures
        r == ends_with(s@, p@),
{
    if p.len() > s.len() {
        return false;
    }
    let (_, tail) = s.split_at(s.len() - p.len());
    crate::text::same_chars(tail, p)
}

fn listed_version_of(line: &[char]) -> (r: Option<Vec<char>>)
    ensures
        r matches Some(v) ==> listed_version(line@) == Some(v@),
        r is None ==> listed_version(line@) is None,
{
    let t = trim_chars(line);
    let open = chars_of("<version>");
    let close = chars_of("</version>");
    proof {
        reveal_strlit("<version>");
        reveal_strlit("</version>");
    }
    if t.len() >= 19 && has_prefix(t.as_slice(), open.as_slice()) && ends_with_chars(t.as_slice(), close.as_slice()) {
        let (head, _) = t.as_slice().split_at(t.len() - 10);
        let (_, inner) = head.split_at(9);
        assert(inner@ =~= t@.subrange(9, t@.len() - 10));
        let mut v: Vec<char> = Vec::new();
        append_chars(&mut v, inner);
        assert(v@ =~= inner@);
        Some(v)
    } else {
        None
    }
}

/// The suffix that marks a Fabric API build for a game version: `+<version>`.
pub open spec fn for_game(mc: Seq<char>) -> spec_fn(Seq<char>) -> bool {
    |v: Seq<char>| ends_with(v, seq!['+'] + mc)
}

/// The prefix of the NeoForge versions for a game version: the game
/// version's minor and patch (`1.21.4` gives `21.4.`), or its minor alone.
pub open spec fn neoforge_prefix(mc: Seq<char>) -> Option<Seq<char>> {
    let parts = split_on(mc, '.');
    if parts.len() >= 3 {
        Some(parts[1] + seq!['.'] + join_with(parts.skip(2), '.') + seq!['.'])
    } else if parts.len() == 2 {
        Some(parts[1] + seq!['.'])
    } else {
        None
    }
}

pub open spec fn with_prefix(p: Seq<char>) -> spec_fn(Seq<char>) -> bool {
    |v: Seq<char>| starts_with(v, p)
}

/// The latest Fabric API version for game version `mc_version` in the maven
/// metadata `body`: the last listed version that ends with `+<mc_version>`.
pub fn fetch_fabric_api_version(body: &str, mc_version: &str) -> (r: Result<String, McmodError>)
    ensures
        last_listed(split_on(body@, '\n'), for_game(mc_version@)) matches Some(v) ==> (r matches Ok(s) && s@ == v),
        last_listed(split_on(body@, '\n'), for_game(mc_version@)) is None ==> (r matches Err(
            McmodError::Other(m),
        ) && m@ == "No Fabric API version found for "@ + mc_version@),
{
    let mut suffix: Vec<char> = vec!['+'];
    append_str(&mut suffix, mc_version);
    assert(suffix@ =~= seq!['+'] + mc_version@);
    let cs = chars_of(body);
    let lines = split_chars(cs.as_slice(), '\n');
    let ghost want = for_game(mc_version@);
    let mut found: Option<Vec<char>> = None;
    let mut i: usize = 0;
    while i < lines.len()
        invariant
            i <= lines@.len(),
            views(lines@) == split_on(body@, '\n'),
            suffix@ == seq!['+'] + mc_version@,
            want == for_game(mc_version@),
            found matches Some(f) ==> last_listed(views(lines@).take(i as int), want) == Some(f@),
            found is None ==> last_listed(views(lines@).take(i as int), want) is None,
        decreases lines@.len() - i,
    {
        assert(views(lines@).take(i + 1).drop_last() =~= views(lines@).take(i as int));
        assert(views(lines@)[i as int] == lines@[i as int]@);
        match listed_version_of(lines[i].as_slice()) {
            Some(v) => {
                if ends_with_chars(v.as_slice(), suffix.as_slice()) {
                    found = Some(v);
                }
            },
            None => {},
        }
        i = i + 1;
    }
    assert(views(lines@).take(i as int) =~= views(lines@));
    match found {
        Some(v) => Ok(string_of(v.as_slice())),
        None => {
            let mut m = chars_of("No Fabric API version found for ");
            append_str(&mut m, mc_version);
            Err(McmodError::Other(string_of(m.as_slice())))
        },
    }
}

/// The latest NeoForge version for game version `mc_version` in the maven
/// metadata `body`: the last listed version that starts with the game
/// version's minor and patch.
pub fn fetch_neoforge_version(body: &str, mc_version: &str) -> (r: Result<String, McmodError>)
    ensures
        neoforge_prefix(mc_version@) is None ==> (r matches Err(McmodError::Other(m)) && m@
            == "Cannot parse Minecraft version: "@ + mc_version@),
        neoforge_prefix(mc_version@) matches Some(p) ==> (last_listed(split_on(body@, '\n'), with_prefix(p)) matches Some(v) ==> (r matches Ok(s) && s@ == v)),
        neoforge_prefix(mc_version@) matches Some(p) ==> (last_listed(split_on(body@, '\n'), with_prefix(p)) is None ==> (r matches Err(
            McmodError::Other(m),
        ) && m@ == "No NeoForge version found for "@ + mc_version@)),
{
    let mc = chars_of(mc_version);
    let parts = split_chars(mc.as_slice(), '.');
    let mut prefix: Vec<char> = Vec::new();
    if parts.len() >= 3 {
        append_chars(&mut prefix, parts[1].as_slice());
        prefix.push('.');
        let mut rest: Vec<Vec<char>> = Vec::new();
        let mut k: usize = 2;
        while k < parts.len()
            invariant
                2 <= k <= parts@.len(),
                views(parts@) == split_on(mc_version@, '.'),
                views(rest@) == split_on(mc_version@, '.').subrange(2, k as int),
            decreases parts@.len() - k,
        {
            let ghost before = views(rest@);
            let mut piece: Vec<char> = Vec::new();
            append_chars(&mut piece, parts[k].as_slice());
            assert(piece@ =~= parts@[k as int]@);
            let ghost pv = piece@;
            rest.push(piece);
            assert(views(parts@)[k as int] == parts@[k as int]@);
            assert(views(rest@) =~= before.push(pv));
            assert(views(rest@) =~= split_on(mc_version@, '.').subrange(2, k + 1));
            k = k + 1;
        }
        assert(split_on(mc_version@, '.').subrange(2, k as int) =~= split_on(mc_version@, '.').skip(2));
        let tail = join_chars(&rest, '.');
        append_chars(&mut prefix, tail.as_slice());
        prefix.push('.');
        assert(views(parts@)[1] == parts@[1]@);
    } else if parts.len() == 2 {
        append_chars(&mut prefix, parts[1].as_slice());
        prefix.push('.');
        assert(views(parts@)[1] == parts@[1]@);
    } else {
        let mut m = chars_of("Cannot parse Minecraft version: ");
        append_str(&mut m, mc_version);
        return Err(McmodError::Other(string_of(m.as_slice())));
    }
    assert(neoforge_prefix(mc_version@) == Some(prefix@));
    let cs = chars_of(body);
    let lines = split_chars(cs.as_slice(), '\n');
    let ghost want = with_prefix(prefix@);
    let mut found: Option<Vec<char>> = None;
    let mut i: usize = 0;
    while i < lines.len()
        invariant
            i <= lines@.len(),
            views(lines@) == split_on(body@, '\n'),
            want == with_prefix(prefix@),
            found matches Some(f) ==> last_listed(views(lines@).take(i as int), want) == Some(f@),
            found is None ==> last_listed(views(lines@).take(i as int), want) is None,
        decreases lines@.len() - i,
    {
        assert(views(lines@).take(i + 1).drop_last() =~= views(lines@).take(i as int));
        assert(views(lines@)[i as int] == lines@[i as int]@);
        match listed_version_of(lines[i].as_slice()) {
            Some(v) => {
                if has_prefix(v.as_slice(), prefix.as_slice()) {
                    found = Some(v);
                }
            },
            None => {},
        }
        i = i + 1;
    }
    assert(views(lines@).take(i as int) =~= views(lines@));
    match found {
        Some(v) => Ok(string_of(v.as_slice())),
        None => {
            let mut m = chars_of("No NeoForge version found for ");
            append_str(&mut m, mc_version);
            Err(McmodError::Other(string_of(m.as_slice())))
        },
    }
}

/// One entry of a version listing: whether it is a stable release, and its
/// version.
pub struct VersionEntry {
    pub stable: Option<bool>,
    pub version: Option<String>,
}

/// The index of the first stable entry that has a version, or the number of
/// entries.
pub open spec fn first_stable(es: Seq<VersionEntry>) -> int
    decreases es.len(),
{
    if es.len() == 0 {
        0
    } else if es[0].stable == Some(true) && es[0].version is Some {
        0
    } else {
        1 + first_stable(es.drop_first())
    }
}

proof fn lemma_first_stable_range(es: Seq<VersionEntry>)
    ensures
        0 <= first_stable(es) <= es.len(),
    decreases es.len(),
{
    if es.len() > 0 {
        lemma_first_stable_range(es.drop_first());
    }
}

/// The version of the first stable entry of a listing that has one.
pub fn first_stable_version(entries: &Vec<VersionEntry>) -> (r: Option<String>)
    ensures
        ({
            let i = first_stable(entries@);
            &&& 0 <= i <= entries@.len()
            &&& i < entries@.len() ==> (r matches Some(v) && entries@[i].version matches Some(w) && v@ == w@)
            &&& i == entries@.len() ==> r is None
        }),
{
    proof {
        lemma_first_stable_range(entries@);
    }
    let mut i: usize = 0;
    assert(entries@.skip(0) =~= entries@);
    while i < entries.len()
        invariant
            i <= entries@.len(),
            0 <= first_stable(entries@) <= entries@.len(),
            first_stable(entries@) == i + first_stable(entries@.skip(i as int)),
        decreases entries@.len() - i,
    {
        let e = &entries[i];
        assert(entries@.skip(i as int)[0] == entries@[i as int]);
        if e.stable == Some(true) {
            match &e.version {
                Some(v) => {
                    return Some(v.clone());
                },
                None => {},
            }
        }
        assert(entries@.skip(i as int).drop_first() =~= entries@.skip(i + 1));
        i = i + 1;
    }
    None
}

} // verus!
