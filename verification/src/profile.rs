//! Client profiles: WireGuard/AmneziaWG configuration files under
//! `/etc/orion/profiles`, named by a restricted alphabet and scanned for the
//! few keys the helper needs.
use vstd::prelude::*;
use vstd::multiset::Multiset;

use crate::protocol::{ProfileInfo, Response};
use crate::wgconf::section_is_interface;

use crate::text::{
    ascii_lower, has_prefix, chars_of, concat, equals_str, lines, line_list, split, split_chars,
    opt_view, same, slice_of, split_once, split_once_chars, string_of, string_views, to_lower,
    trim, trimmed, views,
};

verus! {

/// Directory of the profile files.
pub const PROFILES_DIR: &'static str = "/etc/orion/profiles";

/// A profile as the helper sees it.
pub struct Profile {
    pub name: String,
    /// The file the profile was read from.
    pub path: String,
    /// `Endpoint` of the `[Peer]` section.
    pub endpoint: Option<String>,
    /// `Address` of the `[Interface]` section.
    pub addr: Option<String>,
    /// AmneziaWG junk parameters (`Jc` or `H1`) are present.
    pub awg: bool,
    /// Resolvers listed by `DNS` lines of the `[Interface]` section.
    pub dns: Vec<String>,
}

pub open spec fn name_char(c: char) -> bool {
    ||| 'a' <= c <= 'z'
    ||| 'A' <= c <= 'Z'
    ||| '0' <= c <= '9'
    ||| c == '-'
    ||| c == '_'
}

/// A profile name is a non-empty run of ASCII letters, digits, `-` and `_`
/// (so it can never leave the profile directory).
pub open spec fn valid_profile_name(s: Seq<char>) -> bool {
    s.len() > 0 && forall|i: int| 0 <= i < s.len() ==> name_char(#[trigger] s[i])
}

/// `char::is_ascii_alphanumeric`, by code point: `0-9`, `A-Z`, `a-z`.
pub open spec fn ascii_alphanumeric(c: char) -> bool {
    let u = c as int;
    ||| 0x30 <= u <= 0x39
    ||| 0x41 <= u <= 0x5A
    ||| 0x61 <= u <= 0x7A
}

/// A name is accepted exactly when it is non-empty and each of its
/// characters is ASCII alphanumeric (letters of either case, digits), `-` or
/// `_`.
pub proof fn lemma_valid_name_chars(name: Seq<char>)
    ensures
        valid_profile_name(name) <==> name.len() > 0 && forall|i: int|
            0 <= i < name.len() ==> ascii_alphanumeric(#[trigger] name[i]) || name[i] == '-'
                || name[i] == '_',
{
    assert forall|c: char| #[trigger] name_char(c) <==> ascii_alphanumeric(c) || c == '-' || c == '_' by {
        assert('a' as int == 0x61 && 'z' as int == 0x7A);
        assert('A' as int == 0x41 && 'Z' as int == 0x5A);
        assert('0' as int == 0x30 && '9' as int == 0x39);
    }
}

/// Line `k` of `ls` sets a `Jc` or `H1` key (in any case) of the
/// `[Interface]` section: it is not blank, a comment or a header, and the
/// text before its first `=`, trimmed, is one of those keys.
pub open spec fn amnezia_key_line(ls: Seq<Seq<char>>, k: int) -> bool {
    let line = trim(ls[k]);
    &&& section_is_interface(ls, k - 1)
    &&& line.len() > 0 && line[0] != '#' && line[0] != '['
    &&& split_once(line, '=') matches Some((key, _)) && (ascii_lower(trim(key)) == "jc"@
        || ascii_lower(trim(key)) == "h1"@)
}

proof fn lemma_scan_amnezia(ls: Seq<Seq<char>>, n: int)
    requires
        0 <= n <= ls.len(),
    ensures
        (scan_lines(ls.take(n)).section == "[interface]"@) == section_is_interface(ls, n - 1),
        scan_lines(ls.take(n)).awg <==> exists|k: int| 0 <= k < n && #[trigger] amnezia_key_line(ls, k),
    decreases n,
{
    reveal_strlit("[interface]");
    reveal_strlit("[peer]");
    reveal_strlit("jc");
    reveal_strlit("h1");
    reveal_strlit("endpoint");
    reveal_strlit("address");
    if n == 0 {
        assert(ls.take(0) =~= Seq::<Seq<char>>::empty());
        assert(scan_lines(ls.take(0)) == empty_scan());
        assert(empty_scan().section.len() != "[interface]"@.len());
    } else {
        lemma_scan_amnezia(ls, n - 1);
        let k = n - 1;
        assert(ls.take(n).drop_last() =~= ls.take(k));
        assert(ls.take(n).last() == ls[k]);
        let prev = scan_lines(ls.take(k));
        let cur = scan_lines(ls.take(n));
        assert(cur == scan_line(prev, ls[k]));
        let line = trim(ls[k]);
        let here = amnezia_key_line(ls, k);
        if line.len() == 0 || line[0] == '#' {
            assert(cur == prev);
            assert(!here);
        } else if line[0] == '[' {
            assert(cur.awg == prev.awg);
            assert(!here);
        } else {
            assert(cur.section == prev.section);
            match split_once(line, '=') {
                Some((kk, v)) => {
                    let key = ascii_lower(trim(kk));
                    if key == "jc"@ || key == "h1"@ {
                        assert(key.len() == 2);
                        assert("endpoint"@.len() == 8 && "address"@.len() == 7);
                        assert(cur.awg == (prev.awg || prev.section == "[interface]"@));
                    } else {
                        assert(cur.awg == prev.awg);
                    }
                },
                None => {
                    assert(cur == prev);
                },
            }
            assert(cur.awg == (prev.awg || here));
        }
        assert(cur.awg == (prev.awg || here));
        if exists|j: int| 0 <= j < n && #[trigger] amnezia_key_line(ls, j) {
            let j = choose|j: int| 0 <= j < n && #[trigger] amnezia_key_line(ls, j);
            if j < k {
                assert(prev.awg);
            }
        }
        if prev.awg {
            let j = choose|j: int| 0 <= j < k && #[trigger] amnezia_key_line(ls, j);
            assert(0 <= j < n && amnezia_key_line(ls, j));
        }
        if here {
            assert(0 <= k < n && amnezia_key_line(ls, k));
        }
    }
}

/// A profile is an AmneziaWG profile exactly when one of its lines sets a
/// `Jc` or `H1` key in the `[Interface]` section.
pub proof fn lemma_amnezia_profile(text: Seq<char>)
    ensures
        scan_profile(text).awg <==> exists|k: int|
            0 <= k < lines(text).len() && #[trigger] amnezia_key_line(lines(text), k),
{
    let ls = lines(text);
    lemma_scan_amnezia(ls, ls.len() as int);
    assert(ls.take(ls.len() as int) =~= ls);
}

/// The file that holds the profile `name`.
pub open spec fn profile_file(name: Seq<char>) -> Seq<char> {
    PROFILES_DIR@ + "/"@ + name + ".conf"@
}

/// A valid profile name cannot leave the profile directory: its file is
/// the directory, a slash, and a name with neither slashes nor dots.
pub proof fn lemma_profile_file_stays_in_dir(name: Seq<char>)
    requires
        valid_profile_name(name),
    ensures
        has_prefix(profile_file(name), PROFILES_DIR@ + "/"@),
        forall|i: int| 0 <= i < name.len() ==> name[i] != '/' && name[i] != '.',
{
    let d = PROFILES_DIR@ + "/"@;
    assert(profile_file(name).take(d.len() as int) =~= d);
    assert forall|i: int| 0 <= i < name.len() implies name[i] != '/' && name[i] != '.' by {
        assert(name_char(name[i]));
    }
}

/// What the scan of a profile has gathered so far.
pub struct ProfileScan {
    /// The current section header, lower-cased.
    pub section: Seq<char>,
    pub endpoint: Option<Seq<char>>,
    pub addr: Option<Seq<char>>,
    pub awg: bool,
    pub dns: Seq<Seq<char>>,
}

pub open spec fn empty_scan() -> ProfileScan {
    ProfileScan { section: seq![], endpoint: None, addr: None, awg: false, dns: seq![] }
}

/// The non-empty trimmed pieces of a list, in order.
pub open spec fn nonblank_trimmed(pieces: Seq<Seq<char>>) -> Seq<Seq<char>>
    decreases pieces.len(),
{
    if pieces.len() == 0 {
        seq![]
    } else {
        let rest = nonblank_trimmed(pieces.drop_last());
        let t = trim(pieces.last());
        if t.len() > 0 {
            rest.push(t)
        } else {
            rest
        }
    }
}

/// The resolvers of a `DNS = a, b` value.
pub open spec fn dns_items(val: Seq<char>) -> Seq<Seq<char>> {
    nonblank_trimmed(split(val, ','))
}

/// The effect of one profile line.
pub open spec fn scan_line(st: ProfileScan, raw: Seq<char>) -> ProfileScan {
    let line = trim(raw);
    if line.len() == 0 || line[0] == '#' {
        st
    } else if line[0] == '[' {
        ProfileScan { section: ascii_lower(line), ..st }
    } else {
        match split_once(line, '=') {
            Some((k, v)) => {
                let key = ascii_lower(trim(k));
                let val = trim(v);
                if st.section == "[peer]"@ && key == "endpoint"@ {
                    ProfileScan { endpoint: Some(val), ..st }
                } else if st.section == "[interface]"@ && key == "address"@ {
                    ProfileScan { addr: Some(val), ..st }
                } else if st.section == "[interface]"@ && (key == "jc"@ || key == "h1"@) {
                    ProfileScan { awg: true, ..st }
                } else if st.section == "[interface]"@ && key == "dns"@ {
                    ProfileScan { dns: st.dns + dns_items(val), ..st }
                } else {
                    st
                }
            },
            None => st,
        }
    }
}

/// The scan of a sequence of lines, first to last.
pub open spec fn scan_lines(ls: Seq<Seq<char>>) -> ProfileScan
    decreases ls.len(),
{
    if ls.len() == 0 {
        empty_scan()
    } else {
        scan_line(scan_lines(ls.drop_last()), ls.last())
    }
}

/// The scan of a whole profile text.
pub open spec fn scan_profile(text: Seq<char>) -> ProfileScan {
    scan_lines(lines(text))
}

impl Profile {
    /// The profile is the one named `name`, read from its file, whose text
    /// scans to `sc`.
    pub open spec fn describes(&self, name: Seq<char>, sc: ProfileScan) -> bool {
        &&& self.name@ == name
        &&& self.path@ == profile_file(name)
        &&& opt_view(self.endpoint) == sc.endpoint
        &&& opt_view(self.addr) == sc.addr
        &&& self.awg == sc.awg
        &&& string_views(self.dns@) == sc.dns
    }
}

pub fn is_name_char(c: char) -> (b: bool)
    ensures
        b == name_char(c),
{
    ('a' <= c && c <= 'z') || ('A' <= c && c <= 'Z') || ('0' <= c && c <= '9') || c == '-' || c
        == '_'
}

/// Checks a profile name.
pub fn check_profile_name(name: &str) -> (b: bool)
    ensures
        b == valid_profile_name(name@),
{
    let v = chars_of(name);
    if v.len() == 0 {
        return false;
    }
    let n = v.len();
    let mut i: usize = 0;
    while i < n
        invariant
            n == v.len(),
            v@ == name@,
            i <= n,
            forall|k: int| 0 <= k < i ==> name_char(#[trigger] v@[k]),
        decreases n - i,
    {
        if !is_name_char(v[i]) {
            return false;
        }
        i += 1;
    }
    true
}

fn invalid_name() -> (s: String)
    ensures
        s@ == "invalid profile name"@,
{
    "invalid profile name".to_string()
}

/// The file of the profile `name`, or the error for a name outside the
/// allowed alphabet.
pub fn profile_path(name: &str) -> (r: Result<String, String>)
    ensures
        match r {
            Ok(p) => valid_profile_name(name@) && p@ == profile_file(name@),
            Err(e) => !valid_profile_name(name@) && e@ == "invalid profile name"@,
        },
{
    if !check_profile_name(name) {
        return Err(invalid_name());
    }
    let dir = chars_of(PROFILES_DIR);
    let slash = chars_of("/");
    let n = chars_of(name);
    let ext = chars_of(".conf");
    let a = concat(&dir, &slash);
    let b = concat(&a, &n);
    let c = concat(&b, &ext);
    Ok(string_of(&c))
}

/// The message for a profile file that cannot be read.
pub fn read_failure(path: &str) -> (s: String)
    ensures
        s@ == "cannot read "@ + path@,
{
    let a = chars_of("cannot read ");
    let b = chars_of(path);
    string_of(&concat(&a, &b))
}

/// The resolvers of a `DNS` value.
pub fn dns_list(val: &Vec<char>) -> (r: Vec<String>)
    ensures
        string_views(r@) == dns_items(val@),
{
    let pieces = split_chars(val, ',');
    let ghost pv = views(pieces@);
    let mut out: Vec<String> = Vec::new();
    let n = pieces.len();
    let mut i: usize = 0;
    while i < n
        invariant
            n == pieces.len(),
            pv == views(pieces@),
            pv == split(val@, ','),
            i <= n,
            string_views(out@) == nonblank_trimmed(pv.take(i as int)),
        decreases n - i,
    {
        let t = trimmed(&pieces[i]);
        assert(pv.take(i + 1).drop_last() =~= pv.take(i as int));
        assert(pv.take(i + 1).last() == pieces@[i as int]@);
        if t.len() > 0 {
            let s = string_of(&t);
            let ghost before = string_views(out@);
            out.push(s);
            assert(string_views(out@) =~= before.push(t@));
        }
        i += 1;
    }
    assert(pv.take(n as int) =~= pv);
    out
}

/// The scan of one line applied to the gathered fields.
fn scan_step(
    raw: &Vec<char>,
    section: &mut Vec<char>,
    endpoint: &mut Option<String>,
    addr: &mut Option<String>,
    awg: &mut bool,
    dns: &mut Vec<String>,
)
    ensures
        ({
            let before = ProfileScan {
                section: old(section)@,
                endpoint: opt_view(*old(endpoint)),
                addr: opt_view(*old(addr)),
                awg: *old(awg),
                dns: string_views(old(dns)@),
            };
            let after = ProfileScan {
                section: final(section)@,
                endpoint: opt_view(*final(endpoint)),
                addr: opt_view(*final(addr)),
                awg: *final(awg),
                dns: string_views(final(dns)@),
            };
            after == scan_line(before, raw@)
        }),
{
    let line = trimmed(raw);
    if line.len() == 0 || line[0] == '#' {
        return ;
    }
    if line[0] == '[' {
        *section = to_lower(&line);
        return ;
    }
    match split_once_chars(&line, '=') {
        Some((k, v)) => {
            let key = to_lower(&trimmed(&k));
            let val = trimmed(&v);
            if equals_str(section, "[peer]") && equals_str(&key, "endpoint") {
                *endpoint = Some(string_of(&val));
            } else if equals_str(section, "[interface]") && equals_str(&key, "address") {
                *addr = Some(string_of(&val));
            } else if equals_str(section, "[interface]") && (equals_str(&key, "jc") || equals_str(
                &key,
                "h1",
            )) {
                *awg = true;
            } else if equals_str(section, "[interface]") && equals_str(&key, "dns") {
                let items = dns_list(&val);
                let ghost before = string_views(dns@);
                let mut j: usize = 0;
                let m = items.len();
                while j < m
                    invariant
                        m == items.len(),
                        j <= m,
                        string_views(dns@) == before + string_views(items@).take(j as int),
                    decreases m - j,
                {
                    let s = items[j].clone();
                    let ghost b2 = string_views(dns@);
                    dns.push(s);
                    assert(string_views(dns@) =~= b2.push(items@[j as int]@));
                    assert(string_views(items@).take(j + 1) =~= string_views(items@).take(
                        j as int,
                    ).push(items@[j as int]@));
                    j += 1;
                }
                assert(string_views(items@).take(m as int) =~= string_views(items@));
            }
        },
        None => {},
    }
}

/// Reads the profile `name` from its text: the name must be valid, and the
/// fields are those the scan of the text gathers.
pub fn load_profile(name: &str, text: &str) -> (r: Result<Profile, String>)
    ensures
        match r {
            Ok(p) => valid_profile_name(name@) && p.describes(name@, scan_profile(text@)),
            Err(e) => !valid_profile_name(name@) && e@ == "invalid profile name"@,
        },
{
    let path = match profile_path(name) {
        Ok(p) => p,
        Err(e) => {
            return Err(e);
        },
    };
    let tv = chars_of(text);
    let ls = line_list(&tv);
    let ghost lv = views(ls@);
    let mut section: Vec<char> = Vec::new();
    let mut endpoint: Option<String> = None;
    let mut addr: Option<String> = None;
    let mut awg = false;
    let mut dns: Vec<String> = Vec::new();
    let n = ls.len();
    let mut i: usize = 0;
    assert(string_views(dns@) =~= seq![]);
    assert(section@ =~= seq![]);
    while i < n
        invariant
            n == ls.len(),
            lv == views(ls@),
            lv == lines(text@),
            i <= n,
            (ProfileScan {
                section: section@,
                endpoint: opt_view(endpoint),
                addr: opt_view(addr),
                awg: awg,
                dns: string_views(dns@),
            }) == scan_lines(lv.take(i as int)),
        decreases n - i,
    {
        scan_step(&ls[i], &mut section, &mut endpoint, &mut addr, &mut awg, &mut dns);
        assert(lv.take(i + 1).drop_last() =~= lv.take(i as int));
        assert(lv.take(i + 1).last() == ls@[i as int]@);
        i += 1;
    }
    assert(lv.take(n as int) =~= lv);
    Ok(Profile { name: name.to_string(), path, endpoint, addr, awg, dns })
}

// ---------------------------------------------------------------- listing

/// `s` without the suffix `suf`, when it ends with it (`str::strip_suffix`).
pub open spec fn strip_suffix(s: Seq<char>, suf: Seq<char>) -> Option<Seq<char>> {
    if suf.len() <= s.len() && s.skip(s.len() - suf.len()) == suf {
        Some(s.take(s.len() - suf.len()))
    } else {
        None
    }
}

/// The profile named by a file of the profile directory.
pub fn profile_stem(file_name: &str) -> (r: Option<String>)
    ensures
        opt_view(r) == strip_suffix(file_name@, ".conf"@),
{
    let v = chars_of(file_name);
    let ext = chars_of(".conf");
    if ext.len() > v.len() {
        return None;
    }
    let cut = v.len() - ext.len();
    let tail = slice_of(&v, cut, v.len());
    if same(&tail, &ext) {
        let stem = slice_of(&v, 0, cut);
        Some(string_of(&stem))
    } else {
        None
    }
}

/// Lexicographic order of texts by code point, which is the order of
/// `String`'s `Ord` (UTF-8 preserves code-point order).
pub open spec fn text_le(a: Seq<char>, b: Seq<char>) -> bool
    decreases a.len(),
{
    if a.len() == 0 {
        true
    } else if b.len() == 0 {
        false
    } else if a[0] < b[0] {
        true
    } else if a[0] > b[0] {
        false
    } else {
        text_le(a.drop_first(), b.drop_first())
    }
}

pub proof fn lemma_text_le_total(a: Seq<char>, b: Seq<char>)
    ensures
        text_le(a, b) || text_le(b, a),
    decreases a.len(),
{
    if a.len() > 0 && b.len() > 0 && a[0] == b[0] {
        lemma_text_le_total(a.drop_first(), b.drop_first());
    }
}

pub proof fn lemma_text_le_trans(a: Seq<char>, b: Seq<char>, c: Seq<char>)
    requires
        text_le(a, b),
        text_le(b, c),
    ensures
        text_le(a, c),
    decreases a.len(),
{
    if a.len() > 0 && b.len() > 0 && c.len() > 0 && a[0] == b[0] && b[0] == c[0] {
        lemma_text_le_trans(a.drop_first(), b.drop_first(), c.drop_first());
    }
}

/// Profiles in ascending order of name.
pub open spec fn sorted_by_name(s: Seq<ProfileInfo>) -> bool {
    forall|i: int, j: int| 0 <= i < j < s.len() ==> text_le(#[trigger] s[i].name@, #[trigger] s[j].name@)
}

/// Compares two texts.
pub fn text_le_exec(a: &Vec<char>, b: &Vec<char>) -> (r: bool)
    ensures
        r == text_le(a@, b@),
{
    let mut i: usize = 0;
    assert(a@.skip(0) =~= a@);
    assert(b@.skip(0) =~= b@);
    loop
        invariant
            i <= a.len(),
            i <= b.len(),
            text_le(a@, b@) == text_le(a@.skip(i as int), b@.skip(i as int)),
        decreases a.len() - i,
    {
        if i == a.len() {
            return true;
        }
        if i == b.len() {
            return false;
        }
        let x = a[i];
        let y = b[i];
        assert(a@.skip(i as int)[0] == a@[i as int]);
        assert(b@.skip(i as int)[0] == b@[i as int]);
        if x < y {
            return true;
        }
        if x > y {
            return false;
        }
        assert(a@.skip(i as int).drop_first() =~= a@.skip(i + 1));
        assert(b@.skip(i as int).drop_first() =~= b@.skip(i + 1));
        i += 1;
    }
}

/// Taking one element out of a sequence takes it out of its multiset.
proof fn lemma_insert_to_multiset(s: Seq<ProfileInfo>, p: int)
    requires
        0 <= p < s.len(),
    ensures
        s.to_multiset() == s.remove(p).to_multiset().insert(s[p]),
{
    broadcast use vstd::seq_lib::group_to_multiset_ensures;
    broadcast use vstd::multiset::group_multiset_axioms;

    assert(s.contains(s[p]));
    assert(s.to_multiset().count(s[p]) > 0);
    assert(s.remove(p).to_multiset() == s.to_multiset().remove(s[p]));
    assert(s.to_multiset() =~= s.to_multiset().remove(s[p]).insert(s[p]));
}

/// The profiles of `s` named `n`, in order.
pub open spec fn named(s: Seq<ProfileInfo>, n: Seq<char>) -> Seq<ProfileInfo>
    decreases s.len(),
{
    if s.len() == 0 {
        seq![]
    } else if s.last().name@ == n {
        named(s.drop_last(), n).push(s.last())
    } else {
        named(s.drop_last(), n)
    }
}

proof fn lemma_named_add(a: Seq<ProfileInfo>, b: Seq<ProfileInfo>, n: Seq<char>)
    ensures
        named(a + b, n) == named(a, n) + named(b, n),
    decreases b.len(),
{
    if b.len() == 0 {
        assert(a + b =~= a);
        assert(named(a, n) + named(b, n) =~= named(a, n));
    } else {
        lemma_named_add(a, b.drop_last(), n);
        assert((a + b).drop_last() =~= a + b.drop_last());
        assert((a + b).last() == b.last());
        assert(named(a, n) + named(b.drop_last(), n).push(b.last()) =~= (named(a, n) + named(
            b.drop_last(),
            n,
        )).push(b.last()));
    }
}

proof fn lemma_named_none(s: Seq<ProfileInfo>, n: Seq<char>)
    requires
        forall|i: int| 0 <= i < s.len() ==> s[i].name@ != n,
    ensures
        named(s, n) == Seq::<ProfileInfo>::empty(),
    decreases s.len(),
{
    if s.len() > 0 {
        lemma_named_none(s.drop_last(), n);
    }
}

/// The answer to a profile listing: the profiles found, by name.
pub fn list_profiles(found: Vec<ProfileInfo>) -> (r: Response)
    ensures
        match r {
            Response::Profiles { profiles } => {
                &&& profiles@.to_multiset() == found@.to_multiset()
                &&& sorted_by_name(profiles@)
                &&& forall|n: Seq<char>| #[trigger] named(profiles@, n) == named(found@, n)
            },
            _ => false,
        },
{
    broadcast use vstd::seq_lib::group_to_multiset_ensures;

    let mut input = found;
    let mut out: Vec<ProfileInfo> = Vec::new();
    let ghost all = input@.to_multiset();
    let ghost found_seq = input@;
    assert(out@.to_multiset() =~= Multiset::empty());
    assert forall|n: Seq<char>| #[trigger] named(found_seq, n) == named(out@, n) + named(input@, n) by {
        assert(named(out@, n) =~= seq![]);
        assert(named(out@, n) + named(input@, n) =~= named(input@, n));
    }
    while input.len() > 0
        invariant
            out@.to_multiset().add(input@.to_multiset()) == all,
            sorted_by_name(out@),
            forall|n: Seq<char>| #[trigger] named(found_seq, n) == named(out@, n) + named(input@, n),
        decreases input.len(),
    {
        let ghost in_before = input@;
        let x = input.remove(0);
        assert(in_before.remove(0) == input@);
        let xn = chars_of(x.name.as_str());
        // insert after every profile whose name is not above x's
        let mut p: usize = 0;
        while p < out.len()
            invariant
                p <= out.len(),
                xn@ == x.name@,
                forall|k: int| 0 <= k < p ==> text_le(#[trigger] out@[k].name@, x.name@),
            ensures
                p <= out.len(),
                forall|k: int| 0 <= k < p ==> text_le(#[trigger] out@[k].name@, x.name@),
                p < out.len() ==> !text_le(out@[p as int].name@, x.name@),
            decreases out.len() - p,
        {
            let on = chars_of(out[p].name.as_str());
            let le = text_le_exec(&on, &xn);
            if !le {
                break;
            }
            p += 1;
        }
        proof {
            if p < out.len() {
                lemma_text_le_total(out@[p as int].name@, x.name@);
            }
        }
        let ghost out_before = out@;
        out.insert(p, x);
        assert(out@.remove(p as int) =~= out_before);
        assert(out@[p as int] == x);
        proof {
            lemma_insert_to_multiset(out@, p as int);
        }
        assert forall|i: int, j: int| 0 <= i < j < out@.len() implies text_le(
            #[trigger] out@[i].name@,
            #[trigger] out@[j].name@,
        ) by {
            if i < p {
                assert(out@[i] == out_before[i]);
            }
            if j < p {
                assert(out@[j] == out_before[j]);
            }
            if j < p {
                assert(text_le(out_before[i].name@, out_before[j].name@));
            }
            if j == p && i < p {
                assert(text_le(out_before[i].name@, x.name@));
            }
            if j > p {
                assert(out@[j] == out_before[j - 1]);
                assert(text_le(x.name@, out_before[p as int].name@));
                if j > p + 1 {
                    assert(text_le(out_before[p as int].name@, out_before[j - 1].name@));
                    lemma_text_le_trans(x.name@, out_before[p as int].name@, out@[j].name@);
                }
                assert(text_le(x.name@, out@[j].name@));
                if i < p {
                    lemma_text_le_trans(out@[i].name@, x.name@, out@[j].name@);
                }
                if i > p {
                    assert(out@[i] == out_before[i - 1]);
                    assert(text_le(out_before[i - 1].name@, out_before[j - 1].name@));
                }
            }
        }
        proof {
            lemma_insert_to_multiset(in_before, 0);
            let before_p = out_before.take(p as int);
            let after_p = out_before.skip(p as int);
            assert(out_before =~= before_p + after_p);
            assert(out@ =~= before_p + seq![x] + after_p);
            assert(in_before =~= seq![x] + input@);
            assert forall|n: Seq<char>| #[trigger] named(found_seq, n) == named(out@, n) + named(input@, n) by {
                lemma_named_add(before_p, after_p, n);
                lemma_named_add(before_p + seq![x], after_p, n);
                lemma_named_add(before_p, seq![x], n);
                lemma_named_add(seq![x], input@, n);
                assert(seq![x].drop_last() =~= Seq::<ProfileInfo>::empty());
                assert(seq![x].last() == x);
                assert(named(seq![x].drop_last(), n) =~= Seq::<ProfileInfo>::empty());
                if n == x.name@ {
                    assert(named(seq![x], n) =~= seq![x]);
                    assert forall|i: int| 0 <= i < after_p.len() implies after_p[i].name@ != n by {
                        assert(after_p[i] == out_before[p + i]);
                        if out_before[p + i].name@ == n {
                            if i > 0 {
                                assert(text_le(out_before[p as int].name@, out_before[p + i].name@));
                            }
                        }
                    }
                    lemma_named_none(after_p, n);
                    assert(named(out@, n) + named(input@, n) =~= named(out_before, n) + named(in_before, n));
                } else {
                    assert(named(seq![x], n) =~= Seq::<ProfileInfo>::empty());
                    assert(named(out@, n) + named(input@, n) =~= named(out_before, n) + named(in_before, n));
                }
            }
        }
    }
    assert(input@.to_multiset() =~= Multiset::empty());
    Response::Profiles { profiles: out }
}

} // verus!
