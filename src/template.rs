//! Template variables and `{{placeholder}}` rendering.
use vstd::prelude::*;
use crate::text::{append_chars, append_str, chars_of, occurs, string_of};
use crate::util::{major_minor, neoforge_major, package_path, package_to_path};

verus! {

/// Named values for a template, in insertion order, with distinct names.
pub struct TemplateVars {
    pub entries: Vec<(String, String)>,
}

impl View for TemplateVars {
    type V = Seq<(Seq<char>, Seq<char>)>;

    open spec fn view(&self) -> Seq<(Seq<char>, Seq<char>)> {
        self.entries@.map_values(|e: (String, String)| (e.0@, e.1@))
    }
}

/// The entries of `es` have distinct names.
pub open spec fn distinct_names(es: Seq<(Seq<char>, Seq<char>)>) -> bool {
    forall|i: int, j: int| 0 <= i < j < es.len() ==> #[trigger] es[i].0 != #[trigger] es[j].0
}

/// The value of the first entry of `es` named `k`.
pub open spec fn lookup(es: Seq<(Seq<char>, Seq<char>)>, k: Seq<char>) -> Option<Seq<char>>
    decreases es.len(),
{
    if es.len() == 0 {
        None
    } else if es[0].0 == k {
        Some(es[0].1)
    } else {
        lookup(es.drop_first(), k)
    }
}

/// `es` with `k` set to `v`: an entry named `k` gets the new value in place,
/// else the entry is appended.
pub open spec fn set_entry(es: Seq<(Seq<char>, Seq<char>)>, k: Seq<char>, v: Seq<char>) -> Seq<(Seq<char>, Seq<char>)> {
    if exists|i: int| 0 <= i < es.len() && es[i].0 == k {
        es.update(choose|i: int| 0 <= i < es.len() && es[i].0 == k, (k, v))
    } else {
        es.push((k, v))
    }
}

proof fn lemma_unique_index(es: Seq<(Seq<char>, Seq<char>)>, k: Seq<char>, i: int)
    requires
        distinct_names(es),
        0 <= i < es.len(),
        es[i].0 == k,
    ensures
        (choose|j: int| 0 <= j < es.len() && es[j].0 == k) == i,
{
    let j = choose|j: int| 0 <= j < es.len() && es[j].0 == k;
    if j != i {
        if j < i {
            assert(es[j].0 != es[i].0);
        } else {
            assert(es[i].0 != es[j].0);
        }
    }
}

impl TemplateVars {
    pub open spec fn well_formed(&self) -> bool {
        distinct_names(self@)
    }

    pub fn new() -> (r: TemplateVars)
        ensures
            r@ == Seq::<(Seq<char>, Seq<char>)>::empty(),
            r.well_formed(),
    {
        let r = TemplateVars { entries: Vec::new() };
        assert(r@ =~= Seq::<(Seq<char>, Seq<char>)>::empty());
        r
    }

    /// Sets `key` to `value`, keeping the place of an existing entry.
    pub fn insert(&mut self, key: String, value: String)
        requires
            old(self).well_formed(),
        ensures
            final(self).well_formed(),
            final(self)@ == set_entry(old(self)@, key@, value@),
    {
        let ghost es = self@;
        let kc = chars_of(key.as_str());
        let mut i: usize = 0;
        let mut found = false;
        while i < self.entries.len() && !found
            invariant
                i <= self.entries@.len(),
                self@ == es,
                distinct_names(es),
                kc@ == key@,
                !found ==> forall|j: int| 0 <= j < i ==> es[j].0 != key@,
                found ==> 0 < i && es[i - 1].0 == key@,
            decreases self.entries@.len() - i,
        {
            let nc = chars_of(self.entries[i].0.as_str());
            assert(es[i as int].0 == self.entries@[i as int].0@);
            if crate::text::same_chars(nc.as_slice(), kc.as_slice()) {
                found = true;
            }
            i = i + 1;
        }
        let ghost kv = key@;
        let ghost vv = value@;
        if found {
            let at = i - 1;
            proof {
                lemma_unique_index(es, kv, at as int);
                assert(exists|j: int| 0 <= j < es.len() && es[j].0 == kv);
                assert(set_entry(es, kv, vv) == es.update(at as int, (kv, vv)));
            }
            self.entries.set(at, (key, value));
            assert(self@ =~= es.update(at as int, (kv, vv)));
            assert(distinct_names(self@)) by {
                assert forall|a: int, b: int| 0 <= a < b < self@.len() implies #[trigger] self@[a].0
                    != #[trigger] self@[b].0 by {
                    assert(es[a].0 != es[b].0);
                }
            }
        } else {
            self.entries.push((key, value));
            assert(self@ =~= es.push((kv, vv)));
            assert(distinct_names(self@)) by {
                assert forall|a: int, b: int| 0 <= a < b < self@.len() implies #[trigger] self@[a].0
                    != #[trigger] self@[b].0 by {
                    if b < es.len() {
                        assert(es[a].0 != es[b].0);
                    }
                }
            }
        }
    }

    /// The value named `key`, if any.
    pub fn get(&self, key: &str) -> (r: Option<&String>)
        ensures
            r matches Some(v) ==> lookup(self@, key@) == Some(v@),
            r is None ==> lookup(self@, key@) is None,
    {
        let kc = chars_of(key);
        let mut i: usize = 0;
        assert(self@.skip(0) =~= self@);
        while i < self.entries.len()
            invariant
                i <= self.entries@.len(),
                kc@ == key@,
                lookup(self@, key@) == lookup(self@.skip(i as int), key@),
            decreases self.entries@.len() - i,
        {
            let nc = chars_of(self.entries[i].0.as_str());
            assert(self@[i as int] == (self.entries@[i as int].0@, self.entries@[i as int].1@));
            assert(self@.skip(i as int)[0] == self@[i as int]);
            if crate::text::same_chars(nc.as_slice(), kc.as_slice()) {
                return Some(&self.entries[i].1);
            }
            assert(self@.skip(i as int).drop_first() =~= self@.skip(i + 1));
            i = i + 1;
        }
        None
    }
}

/// `s` with every occurrence of `pat` replaced by `rep`, scanning left to right.
pub open spec fn replace_all(s: Seq<char>, pat: Seq<char>, rep: Seq<char>) -> Seq<char>
    decreases s.len(),
{
    if pat.len() == 0 || s.len() < pat.len() {
        s
    } else if s.subrange(0, pat.len() as int) == pat {
        rep + replace_all(s.skip(pat.len() as int), pat, rep)
    } else {
        seq![s[0]] + replace_all(s.drop_first(), pat, rep)
    }
}

/// The placeholder of the variable `k`: `{{k}}`.
pub open spec fn placeholder(k: Seq<char>) -> Seq<char> {
    "{{"@ + k + "}}"@
}

/// `t` with the placeholders of the entries of `es` replaced, one entry after
/// another.
pub open spec fn rendered(t: Seq<char>, es: Seq<(Seq<char>, Seq<char>)>) -> Seq<char>
    decreases es.len(),
{
    if es.len() == 0 {
        t
    } else {
        rendered(replace_all(t, placeholder(es[0].0), es[0].1), es.drop_first())
    }
}

fn replace_chars(s: &[char], pat: &[char], rep: &[char]) -> (r: Vec<char>)
    requires
        pat@.len() > 0,
    ensures
        r@ == replace_all(s@, pat@, rep@),
{
    let mut out: Vec<char> = Vec::new();
    let mut i: usize = 0;
    assert(s@.skip(0) =~= s@);
    assert(out@ + replace_all(s@, pat@, rep@) =~= replace_all(s@, pat@, rep@));
    while i < s.len()
        invariant
            pat@.len() > 0,
            i <= s@.len(),
            out@ + replace_all(s@.skip(i as int), pat@, rep@) == replace_all(s@, pat@, rep@),
        decreases s@.len() - i,
    {
        let ghost rest = s@.skip(i as int);
        if occurs(s, pat, i) {
            assert(rest.subrange(0, pat@.len() as int) =~= s@.subrange(i as int, i + pat@.len()));
            assert(rest.skip(pat@.len() as int) =~= s@.skip(i + pat@.len()));
            append_chars(&mut out, rep);
            i = i + pat.len();
        } else {
            proof {
                if rest.len() >= pat@.len() {
                    assert(rest.subrange(0, pat@.len() as int) =~= s@.subrange(i as int, i + pat@.len()));
                }
                assert(rest.drop_first() =~= s@.skip(i + 1));
                assert(out@.push(s@[i as int]) + replace_all(s@.skip(i + 1), pat@, rep@) =~= out@ + (seq![rest[0]] + replace_all(rest.drop_first(), pat@, rep@)));
                if rest.len() < pat@.len() {
                    assert(replace_all(rest.drop_first(), pat@, rep@) == rest.drop_first());
                    assert(seq![rest[0]] + rest.drop_first() =~= rest);
                }
            }
            out.push(s[i]);
            i = i + 1;
        }
    }
    assert(s@.skip(i as int) =~= Seq::<char>::empty());
    assert(out@ + Seq::<char>::empty() =~= out@);
    out
}

/// Renders a template: each `{{name}}` placeholder of a variable is replaced
/// by its value, variable after variable in the order they were set.
pub fn render(template: &str, vars: &TemplateVars) -> (r: String)
    ensures
        r@ == rendered(template@, vars@),
{
    let mut cur = chars_of(template);
    let mut i: usize = 0;
    assert(vars@.skip(0) =~= vars@);
    while i < vars.entries.len()
        invariant
            i <= vars.entries@.len(),
            rendered(cur@, vars@.skip(i as int)) == rendered(template@, vars@),
        decreases vars.entries@.len() - i,
    {
        let mut pat: Vec<char> = Vec::new();
        append_str(&mut pat, "{{");
        append_str(&mut pat, vars.entries[i].0.as_str());
        append_str(&mut pat, "}}");
        proof {
            reveal_strlit("{{");
        }
        assert(pat@ == placeholder(vars@[i as int].0));
        let rep = chars_of(vars.entries[i].1.as_str());
        assert(vars@.skip(i as int).drop_first() =~= vars@.skip(i + 1));
        cur = replace_chars(cur.as_slice(), pat.as_slice(), rep.as_slice());
        i = i + 1;
    }
    assert(vars@.skip(i as int) =~= Seq::<(Seq<char>, Seq<char>)>::empty());
    string_of(cur.as_slice())
}

/// The decimal digits of `n`.
pub open spec fn decimal(n: nat) -> Seq<char>
    decreases n,
{
    if n < 10 {
        seq![digit_char(n)]
    } else {
        decimal(n / 10).push(digit_char(n % 10))
    }
}

pub open spec fn digit_char(d: nat) -> char {
    if d == 0 { '0' } else if d == 1 { '1' } else if d == 2 { '2' } else if d == 3 { '3' }
    else if d == 4 { '4' } else if d == 5 { '5' } else if d == 6 { '6' } else if d == 7 { '7' }
    else if d == 8 { '8' } else { '9' }
}

fn digit(d: u64) -> (c: char)
    requires
        d < 10,
    ensures
        c == digit_char(d as nat),
{
    if d == 0 { '0' } else if d == 1 { '1' } else if d == 2 { '2' } else if d == 3 { '3' }
    else if d == 4 { '4' } else if d == 5 { '5' } else if d == 6 { '6' } else if d == 7 { '7' }
    else if d == 8 { '8' } else { '9' }
}

/// Appends the decimal digits of `n` to `out`.
pub fn push_decimal(out: &mut Vec<char>, n: u64)
    ensures
        final(out)@ == old(out)@ + decimal(n as nat),
    decreases n,
{
    if n >= 10 {
        push_decimal(out, n / 10);
    }
    out.push(digit(n % 10));
    assert(final(out)@ =~= old(out)@ + decimal(n as nat));
}

/// Seconds in an average year, for the copyright year.
pub const SECONDS_PER_YEAR: u64 = 31557600;

/// The copyright year for a time given in seconds since the Unix epoch.
pub open spec fn year_of(secs: u64) -> Seq<char> {
    decimal((1970 + secs / SECONDS_PER_YEAR) as nat)
}

/// Relies on `SystemTime::now`: seconds since the Unix epoch, 0 for a clock
/// set before it.
#[verifier::external_body]
fn unix_seconds() -> (r: u64) {
    std::time::SystemTime::now().duration_since(std::time::UNIX_EPOCH).map(|d| d.as_secs()).unwrap_or(0)
}

/// The decimal copyright year for a time in seconds since the Unix epoch.
pub fn year_from_seconds(secs: u64) -> (r: String)
    ensures
        r@ == year_of(secs),
{
    let mut out: Vec<char> = Vec::new();
    push_decimal(&mut out, 1970 + secs / SECONDS_PER_YEAR);
    assert(out@ =~= year_of(secs));
    string_of(out.as_slice())
}

/// The current copyright year, from the system clock.
pub fn chrono_year() -> (r: String)
    ensures
        exists|secs: u64| r@ == year_of(secs),
{
    let secs = unix_seconds();
    year_from_seconds(secs)
}

/// The standard template variables of a project, in this order.
pub open spec fn standard_vars(
    mod_id: Seq<char>,
    mod_name: Seq<char>,
    package: Seq<char>,
    class_name: Seq<char>,
    author: Seq<char>,
    description: Seq<char>,
    language: Seq<char>,
    minecraft_version: Seq<char>,
    fabric_loader_version: Seq<char>,
    fabric_api_version: Seq<char>,
    neoforge_version: Seq<char>,
    enabled_platforms: Seq<char>,
    year: Seq<char>,
) -> Seq<(Seq<char>, Seq<char>)> {
    seq![
        ("mod_id"@, mod_id),
        ("mod_name"@, mod_name),
        ("package"@, package),
        ("package_path"@, package_path(package)),
        ("class_name"@, class_name),
        ("author"@, author),
        ("description"@, description),
        ("language"@, language),
        ("minecraft_version"@, minecraft_version),
        ("fabric_loader_version"@, fabric_loader_version),
        ("fabric_api_version"@, fabric_api_version),
        ("neoforge_version"@, neoforge_version),
        ("neoforge_major"@, major_minor(neoforge_version)),
        ("year"@, year),
        ("enabled_platforms"@, enabled_platforms),
    ]
}

/// The variables that name files can be read from the standard variables.
pub proof fn lemma_standard_lookup(
    mod_id: Seq<char>,
    mod_name: Seq<char>,
    package: Seq<char>,
    class_name: Seq<char>,
    author: Seq<char>,
    description: Seq<char>,
    language: Seq<char>,
    minecraft_version: Seq<char>,
    fabric_loader_version: Seq<char>,
    fabric_api_version: Seq<char>,
    neoforge_version: Seq<char>,
    enabled_platforms: Seq<char>,
    year: Seq<char>,
)
    ensures
        ({
            let vs = standard_vars(mod_id, mod_name, package, class_name, author, description,
                language, minecraft_version, fabric_loader_version, fabric_api_version,
                neoforge_version, enabled_platforms, year);
            &&& lookup(vs, "mod_id"@) == Some(mod_id)
            &&& lookup(vs, "package_path"@) == Some(package_path(package))
            &&& lookup(vs, "class_name"@) == Some(class_name)
        }),
{
    reveal_strlit("mod_id");
    reveal_strlit("mod_name");
    reveal_strlit("package");
    reveal_strlit("package_path");
    reveal_strlit("class_name");
    let v0 = standard_vars(mod_id, mod_name, package, class_name, author, description,
        language, minecraft_version, fabric_loader_version, fabric_api_version,
        neoforge_version, enabled_platforms, year);
    let v1 = v0.drop_first();
    let v2 = v1.drop_first();
    let v3 = v2.drop_first();
    let v4 = v3.drop_first();
    assert(v0[0].0 == "mod_id"@);
    assert(v1[0].0 == "mod_name"@);
    assert(v2[0].0 == "package"@);
    assert(v3[0].0 == "package_path"@);
    assert(v4[0].0 == "class_name"@);
    assert(lookup(v0, "package_path"@) == lookup(v1, "package_path"@));
    assert(lookup(v1, "package_path"@) == lookup(v2, "package_path"@));
    assert(lookup(v2, "package_path"@) == lookup(v3, "package_path"@));
    assert(lookup(v0, "class_name"@) == lookup(v1, "class_name"@));
    assert(lookup(v1, "class_name"@) == lookup(v2, "class_name"@));
    assert(lookup(v2, "class_name"@) == lookup(v3, "class_name"@));
    assert(lookup(v3, "class_name"@) == lookup(v4, "class_name"@));
}

fn push_var(es: &mut Vec<(String, String)>, key: &str, value: String)
    ensures
        final(es)@.map_values(|e: (String, String)| (e.0@, e.1@)) == old(es)@.map_values(
            |e: (String, String)| (e.0@, e.1@),
        ).push((key@, value@)),
{
    let ghost before = es@;
    es.push((key.to_owned(), value));
    assert(es@.map_values(|e: (String, String)| (e.0@, e.1@)) =~= before.map_values(
        |e: (String, String)| (e.0@, e.1@),
    ).push((key@, value@)));
}

/// The standard template variables, with the copyright year given.
pub fn build_vars_with_year(
    mod_id: &str,
    mod_name: &str,
    package: &str,
    class_name: &str,
    author: &str,
    description: &str,
    language: &str,
    minecraft_version: &str,
    fabric_loader_version: &str,
    fabric_api_version: &str,
    neoforge_version: &str,
    enabled_platforms: &str,
    year: &str,
) -> (r: TemplateVars)
    ensures
        r@ == standard_vars(mod_id@, mod_name@, package@, class_name@, author@, description@,
            language@, minecraft_version@, fabric_loader_version@, fabric_api_version@,
            neoforge_version@, enabled_platforms@, year@),
{
    let mut es: Vec<(String, String)> = Vec::new();
    push_var(&mut es, "mod_id", mod_id.to_owned());
    push_var(&mut es, "mod_name", mod_name.to_owned());
    push_var(&mut es, "package", package.to_owned());
    push_var(&mut es, "package_path", package_to_path(package));
    push_var(&mut es, "class_name", class_name.to_owned());
    push_var(&mut es, "author", author.to_owned());
    push_var(&mut es, "description", description.to_owned());
    push_var(&mut es, "language", language.to_owned());
    push_var(&mut es, "minecraft_version", minecraft_version.to_owned());
    push_var(&mut es, "fabric_loader_version", fabric_loader_version.to_owned());
    push_var(&mut es, "fabric_api_version", fabric_api_version.to_owned());
    push_var(&mut es, "neoforge_version", neoforge_version.to_owned());
    push_var(&mut es, "neoforge_major", neoforge_major(neoforge_version));
    push_var(&mut es, "year", year.to_owned());
    push_var(&mut es, "enabled_platforms", enabled_platforms.to_owned());
    let r = TemplateVars { entries: es };
    assert(r@ =~= standard_vars(mod_id@, mod_name@, package@, class_name@, author@,
        description@, language@, minecraft_version@, fabric_loader_version@,
        fabric_api_version@, neoforge_version@, enabled_platforms@, year@));
    r
}

/// The standard template variables of a project; the copyright year comes
/// from the system clock.
pub fn build_vars(
    mod_id: &str,
    mod_name: &str,
    package: &str,
    class_name: &str,
    author: &str,
    description: &str,
    language: &str,
    minecraft_version: &str,
    fabric_loader_version: &str,
    fabric_api_version: &str,
    neoforge_version: &str,
    enabled_platforms: &str,
) -> (r: TemplateVars)
    ensures
        exists|secs: u64|
            r@ == standard_vars(mod_id@, mod_name@, package@, class_name@, author@,
                description@, language@, minecraft_version@, fabric_loader_version@,
                fabric_api_version@, neoforge_version@, enabled_platforms@, #[trigger] year_of(secs)),
{
    let year = chrono_year();
    build_vars_with_year(mod_id, mod_name, package, class_name, author, description, language,
        minecraft_version, fabric_loader_version, fabric_api_version, neoforge_version,
        enabled_platforms, year.as_str())
}

} // verus!
