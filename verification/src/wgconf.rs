//! The tunnel configuration handed to `wg-quick`/`awg-quick`: the profile
//! text with the lines that would run commands as root removed, and `DNS`
//! lines removed when no resolver hook exists to apply them.
use vstd::prelude::*;

use crate::text::{
    ascii_lower, char_pos, chars_of, equals_str, has_prefix, lemma_char_pos, lemma_char_pos_at,
    line_list, lines, split, starts_with, string_of, strip_cr, to_lower, trim, trimmed, views,
};

verus! {

/// A key that `wg-quick` would act on by running a command or touching the
/// routing table (`PostUp`, `PreUp`, `PostDown`, `PreDown`, `Table`).
pub open spec fn hook_key(key: Seq<char>) -> bool {
    ||| has_prefix(key, "postup"@)
    ||| has_prefix(key, "preup"@)
    ||| has_prefix(key, "postdown"@)
    ||| has_prefix(key, "predown"@)
    ||| has_prefix(key, "table"@)
}

/// Where the filter is in the profile, and the lines it keeps.
pub struct ConfScan {
    pub in_interface: bool,
    pub kept: Seq<Seq<char>>,
}

/// The effect of one line: a section header moves the filter in or out of
/// `[Interface]`; `DNS` lines inside `[Interface]` go when there is no
/// resolver hook; hook keys always go; everything else is kept as written.
pub open spec fn conf_step(st: ConfScan, raw: Seq<char>, dns_hook: bool) -> ConfScan {
    let line = trim(raw);
    let in_interface = if line.len() > 0 && line[0] == '[' {
        ascii_lower(line) == "[interface]"@
    } else {
        st.in_interface
    };
    let key = ascii_lower(line);
    if (in_interface && has_prefix(key, "dns"@) && !dns_hook) || hook_key(key) {
        ConfScan { in_interface, kept: st.kept }
    } else {
        ConfScan { in_interface, kept: st.kept.push(raw) }
    }
}

pub open spec fn conf_scan(ls: Seq<Seq<char>>, dns_hook: bool) -> ConfScan
    decreases ls.len(),
{
    if ls.len() == 0 {
        ConfScan { in_interface: false, kept: seq![] }
    } else {
        conf_step(conf_scan(ls.drop_last(), dns_hook), ls.last(), dns_hook)
    }
}

/// Lines, each followed by a line feed.
pub open spec fn with_newlines(ls: Seq<Seq<char>>) -> Seq<char>
    decreases ls.len(),
{
    if ls.len() == 0 {
        seq![]
    } else {
        with_newlines(ls.drop_last()) + ls.last() + seq!['\n']
    }
}

/// The lines of a profile that survive the filter.
pub open spec fn kept_lines(text: Seq<char>, dns_hook: bool) -> Seq<Seq<char>> {
    conf_scan(lines(text), dns_hook).kept
}

/// The configuration written for a profile text.
pub open spec fn wg_conf(text: Seq<char>, dns_hook: bool) -> Seq<char> {
    with_newlines(kept_lines(text, dns_hook))
}

/// Builds the tunnel configuration from the profile text; `dns_hook` tells
/// whether resolvconf or systemd-resolved can apply `DNS` lines.
pub fn build_wg_conf(text: &str, dns_hook: bool) -> (r: String)
    ensures
        r@ == wg_conf(text@, dns_hook),
{
    let tv = chars_of(text);
    let ls = line_list(&tv);
    let ghost lv = views(ls@);
    let mut out: Vec<char> = Vec::new();
    let mut in_interface = false;
    let ghost mut kept: Seq<Seq<char>> = seq![];
    let n = ls.len();
    let mut i: usize = 0;
    while i < n
        invariant
            n == ls.len(),
            lv == views(ls@),
            lv == lines(text@),
            i <= n,
            conf_scan(lv.take(i as int), dns_hook) == (ConfScan { in_interface, kept }),
            out@ == with_newlines(kept),
        decreases n - i,
    {
        let raw = &ls[i];
        let line = trimmed(raw);
        if line.len() > 0 && line[0] == '[' {
            in_interface = equals_str(&to_lower(&line), "[interface]");
        }
        let key = to_lower(&line);
        let drop = (in_interface && starts_with(&key, "dns") && !dns_hook) || starts_with(
            &key,
            "postup",
        ) || starts_with(&key, "preup") || starts_with(&key, "postdown") || starts_with(
            &key,
            "predown",
        ) || starts_with(&key, "table");
        assert(lv.take(i + 1).drop_last() =~= lv.take(i as int));
        assert(lv.take(i + 1).last() == raw@);
        if !drop {
            let ghost before = out@;
            let m = raw.len();
            let mut j: usize = 0;
            while j < m
                invariant
                    m == raw.len(),
                    j <= m,
                    out@ == before + raw@.take(j as int),
                decreases m - j,
            {
                out.push(raw[j]);
                assert(raw@.take(j + 1) =~= raw@.take(j as int).push(raw@[j as int]));
                j += 1;
            }
            out.push('\n');
            proof {
                assert(raw@.take(m as int) =~= raw@);
                let k2 = kept.push(raw@);
                assert(k2.drop_last() =~= kept);
                assert(out@ =~= with_newlines(k2));
                kept = k2;
            }
        }
        i += 1;
    }
    assert(lv.take(n as int) =~= lv);
    string_of(&out)
}

/// Every kept line is a line of the profile, and none of them carries a
/// command hook: a poisoned profile cannot make `wg-quick` run anything.
pub proof fn lemma_conf_drops_hooks(text: Seq<char>, dns_hook: bool)
    ensures
        forall|i: int|
            0 <= i < kept_lines(text, dns_hook).len() ==> {
                &&& !hook_key(ascii_lower(trim(#[trigger] kept_lines(text, dns_hook)[i])))
                &&& lines(text).contains(kept_lines(text, dns_hook)[i])
            },
{
    lemma_scan_kept(lines(text), dns_hook);
}

proof fn lemma_scan_kept(ls: Seq<Seq<char>>, dns_hook: bool)
    ensures
        forall|i: int|
            0 <= i < conf_scan(ls, dns_hook).kept.len() ==> {
                &&& !hook_key(ascii_lower(trim(#[trigger] conf_scan(ls, dns_hook).kept[i])))
                &&& ls.contains(conf_scan(ls, dns_hook).kept[i])
            },
    decreases ls.len(),
{
    if ls.len() > 0 {
        let prev = conf_scan(ls.drop_last(), dns_hook);
        lemma_scan_kept(ls.drop_last(), dns_hook);
        let cur = conf_scan(ls, dns_hook);
        assert forall|i: int| 0 <= i < cur.kept.len() implies {
            &&& !hook_key(ascii_lower(trim(#[trigger] cur.kept[i])))
            &&& ls.contains(cur.kept[i])
        } by {
            if i < prev.kept.len() {
                assert(cur.kept[i] == prev.kept[i]);
                let k = choose|k: int| 0 <= k < ls.drop_last().len() && ls.drop_last()[k] == prev.kept[i];
                assert(ls[k] == prev.kept[i]);
            } else {
                assert(cur.kept[i] == ls.last());
                assert(ls[ls.len() - 1] == ls.last());
            }
        }
    }
}

/// The filter is inside `[Interface]` when it reaches line `k`.
pub open spec fn in_interface_at(ls: Seq<Seq<char>>, k: int, dns_hook: bool) -> bool {
    conf_step(conf_scan(ls.take(k), dns_hook), ls[k], dns_hook).in_interface
}

/// Line `k` is written to the configuration.
pub open spec fn line_kept(ls: Seq<Seq<char>>, k: int, dns_hook: bool) -> bool {
    conf_scan(ls.take(k + 1), dns_hook).kept.len() > conf_scan(ls.take(k), dns_hook).kept.len()
}

/// Without a resolver hook, no `DNS` line of the `[Interface]` section is
/// written to the configuration.
pub proof fn lemma_conf_drops_dns_without_hook(ls: Seq<Seq<char>>)
    ensures
        forall|k: int|
            0 <= k < ls.len() && #[trigger] in_interface_at(ls, k, false) && has_prefix(
                ascii_lower(trim(ls[k])),
                "dns"@,
            ) ==> !line_kept(ls, k, false),
{
    assert forall|k: int|
        0 <= k < ls.len() && #[trigger] in_interface_at(ls, k, false) && has_prefix(
            ascii_lower(trim(ls[k])),
            "dns"@,
        ) implies !line_kept(ls, k, false) by {
        assert(ls.take(k + 1).drop_last() =~= ls.take(k));
        assert(ls.take(k + 1).last() == ls[k]);
    }
}

// ---------------------------------------------------------------- completeness

/// Line `k` of `ls` lies in the `[Interface]` section: the nearest section
/// header at or before it reads `[Interface]`, in any case.
pub open spec fn section_is_interface(ls: Seq<Seq<char>>, k: int) -> bool
    decreases k + 1,
{
    if k < 0 || k >= ls.len() {
        false
    } else {
        let line = trim(ls[k]);
        if line.len() > 0 && line[0] == '[' {
            ascii_lower(line) == "[interface]"@
        } else {
            section_is_interface(ls, k - 1)
        }
    }
}

/// Line `k` of `ls` must not reach the tunnel configuration: its key (the
/// trimmed line, in lower case) starts with `postup`, `preup`, `postdown`,
/// `predown` or `table`, or, with no resolver hook, it is a `dns` line of
/// the `[Interface]` section.
pub open spec fn must_drop(ls: Seq<Seq<char>>, k: int, dns_hook: bool) -> bool {
    let key = ascii_lower(trim(ls[k]));
    ||| section_is_interface(ls, k) && has_prefix(key, "dns"@) && !dns_hook
    ||| has_prefix(key, "postup"@)
    ||| has_prefix(key, "preup"@)
    ||| has_prefix(key, "postdown"@)
    ||| has_prefix(key, "predown"@)
    ||| has_prefix(key, "table"@)
}

proof fn lemma_scan_section(ls: Seq<Seq<char>>, k: int, dns_hook: bool)
    requires
        0 <= k < ls.len(),
    ensures
        conf_scan(ls.take(k + 1), dns_hook).in_interface == section_is_interface(ls, k),
    decreases k,
{
    assert(ls.take(k + 1).drop_last() =~= ls.take(k));
    assert(ls.take(k + 1).last() == ls[k]);
    let prev = conf_scan(ls.take(k), dns_hook);
    assert(conf_scan(ls.take(k + 1), dns_hook) == conf_step(prev, ls[k], dns_hook));
    if k > 0 {
        lemma_scan_section(ls, k - 1, dns_hook);
    } else {
        assert(ls.take(k) =~= Seq::<Seq<char>>::empty());
        assert(!prev.in_interface);
        assert(!section_is_interface(ls, k - 1));
    }
}

/// The filter is complete as well as safe: going through the profile line by
/// line, each line is written, unchanged and after the lines before it,
/// exactly when it is not one that must be dropped.
pub proof fn lemma_conf_keeps_the_rest(ls: Seq<Seq<char>>, dns_hook: bool)
    ensures
        conf_scan(ls.take(0), dns_hook).kept == Seq::<Seq<char>>::empty(),
        forall|k: int|
            0 <= k < ls.len() ==> #[trigger] conf_scan(ls.take(k + 1), dns_hook).kept == if must_drop(
                ls,
                k,
                dns_hook,
            ) {
                conf_scan(ls.take(k), dns_hook).kept
            } else {
                conf_scan(ls.take(k), dns_hook).kept.push(ls[k])
            },
{
    assert(ls.take(0) =~= Seq::<Seq<char>>::empty());
    assert forall|k: int| 0 <= k < ls.len() implies #[trigger] conf_scan(ls.take(k + 1), dns_hook).kept
        == if must_drop(ls, k, dns_hook) {
        conf_scan(ls.take(k), dns_hook).kept
    } else {
        conf_scan(ls.take(k), dns_hook).kept.push(ls[k])
    } by {
        lemma_scan_section(ls, k, dns_hook);
        assert(ls.take(k + 1).drop_last() =~= ls.take(k));
        assert(ls.take(k + 1).last() == ls[k]);
    }
}

/// Every line of a profile that is not one that must be dropped is written
/// to the tunnel configuration.
pub proof fn lemma_conf_keeps_line(text: Seq<char>, dns_hook: bool, k: int)
    requires
        0 <= k < lines(text).len(),
        !must_drop(lines(text), k, dns_hook),
    ensures
        kept_lines(text, dns_hook).contains(lines(text)[k]),
{
    let ls = lines(text);
    lemma_conf_keeps_the_rest(ls, dns_hook);
    lemma_kept_grows(ls, dns_hook, k + 1, ls.len() as int);
    let before = conf_scan(ls.take(k), dns_hook).kept;
    let after = conf_scan(ls.take(k + 1), dns_hook).kept;
    assert(after == before.push(ls[k]));
    assert(after[before.len() as int] == ls[k]);
    assert(ls.take(ls.len() as int) =~= ls);
    let all = kept_lines(text, dns_hook);
    assert(all[before.len() as int] == ls[k]);
}

proof fn lemma_kept_grows(ls: Seq<Seq<char>>, dns_hook: bool, a: int, b: int)
    requires
        0 <= a <= b <= ls.len(),
    ensures
        conf_scan(ls.take(a), dns_hook).kept.is_prefix_of(conf_scan(ls.take(b), dns_hook).kept),
    decreases b - a,
{
    if a < b {
        lemma_kept_grows(ls, dns_hook, a, b - 1);
        assert(ls.take(b).drop_last() =~= ls.take(b - 1));
    }
}

// ---------------------------------------------------------------- idempotence

/// No character of `l` is `c`.
pub open spec fn free_of(l: Seq<char>, c: char) -> bool {
    forall|j: int| 0 <= j < l.len() ==> l[j] != c
}

proof fn lemma_split_pieces(s: Seq<char>, c: char, d: char)
    requires
        free_of(s, d),
    ensures
        forall|k: int|
            0 <= k < split(s, c).len() ==> free_of(#[trigger] split(s, c)[k], c) && free_of(
                split(s, c)[k],
                d,
            ),
    decreases s.len(),
{
    lemma_char_pos(s, c);
    let i = char_pos(s, c);
    if i < s.len() {
        let rest = s.skip((i + 1) as int);
        assert forall|j: int| 0 <= j < rest.len() implies rest[j] != d by {
            assert(rest[j] == s[j + i + 1]);
        }
        lemma_split_pieces(rest, c, d);
        let head = s.take(i as int);
        assert forall|j: int| 0 <= j < head.len() implies head[j] != c && head[j] != d by {
            assert(head[j] == s[j]);
        }
        assert forall|k: int| 0 <= k < split(s, c).len() implies free_of(
            #[trigger] split(s, c)[k],
            c,
        ) && free_of(split(s, c)[k], d) by {
            if k == 0 {
                assert(split(s, c)[0] == head);
            } else {
                assert(split(s, c)[k] == split(rest, c)[k - 1]);
            }
        }
    }
}

proof fn lemma_lines_pieces(s: Seq<char>)
    requires
        free_of(s, '\r'),
    ensures
        forall|k: int|
            0 <= k < lines(s).len() ==> free_of(#[trigger] lines(s)[k], '\n') && free_of(
                lines(s)[k],
                '\r',
            ),
{
    lemma_split_pieces(s, '\n', '\r');
    let segs = split(s, '\n');
    assert forall|k: int| 0 <= k < lines(s).len() implies free_of(#[trigger] lines(s)[k], '\n')
        && free_of(lines(s)[k], '\r') by {
        if k < segs.len() - 1 {
            let l = segs[k];
            assert(l.len() > 0 ==> l[l.len() - 1] != '\r');
            assert(lines(s)[k] == strip_cr(l));
        } else {
            assert(lines(s)[k] == segs.last());
        }
    }
}

proof fn lemma_with_newlines_front(ls: Seq<Seq<char>>)
    requires
        ls.len() > 0,
    ensures
        with_newlines(ls) == ls[0] + seq!['\n'] + with_newlines(ls.drop_first()),
    decreases ls.len(),
{
    if ls.len() == 1 {
        assert(ls.drop_last() =~= Seq::<Seq<char>>::empty());
        assert(ls.drop_first() =~= Seq::<Seq<char>>::empty());
        assert(with_newlines(ls.drop_last()) == Seq::<char>::empty());
        assert(ls.last() == ls[0]);
        assert(with_newlines(ls) =~= ls[0] + seq!['\n']);
    } else {
        let front = ls.drop_last();
        lemma_with_newlines_front(front);
        assert(ls.drop_first().drop_last() =~= front.drop_first());
        assert(ls.drop_first().last() == ls.last());
        assert(with_newlines(ls) =~= ls[0] + seq!['\n'] + with_newlines(ls.drop_first()));
    }
}

proof fn lemma_split_with_newlines(ls: Seq<Seq<char>>)
    requires
        forall|i: int| 0 <= i < ls.len() ==> free_of(#[trigger] ls[i], '\n'),
    ensures
        split(with_newlines(ls), '\n') == ls.push(seq![]),
    decreases ls.len(),
{
    let s = with_newlines(ls);
    if ls.len() == 0 {
        lemma_char_pos_at(s, '\n', 0);
        assert(split(s, '\n') =~= ls.push(seq![]));
    } else {
        lemma_with_newlines_front(ls);
        let rest = ls.drop_first();
        assert forall|i: int| 0 <= i < rest.len() implies free_of(#[trigger] rest[i], '\n') by {
            assert(rest[i] == ls[i + 1]);
        }
        lemma_split_with_newlines(rest);
        let a = ls[0];
        assert(free_of(a, '\n'));
        assert forall|k: int| 0 <= k < a.len() implies s[k] != '\n' by {
            assert(s[k] == a[k]);
        }
        lemma_char_pos_at(s, '\n', a.len() as int);
        assert(s.take(a.len() as int) =~= a);
        assert(s.skip((a.len() + 1) as int) =~= with_newlines(rest));
        assert(split(s, '\n') =~= ls.push(seq![]));
    }
}

proof fn lemma_lines_with_newlines(ls: Seq<Seq<char>>)
    requires
        forall|i: int|
            0 <= i < ls.len() ==> free_of(#[trigger] ls[i], '\n') && free_of(ls[i], '\r'),
    ensures
        lines(with_newlines(ls)) == ls,
{
    let s = with_newlines(ls);
    if ls.len() > 0 {
        lemma_split_with_newlines(ls);
        assert(s.last() == '\n');
        assert(ls.push(seq![]).drop_last() =~= ls);
        assert forall|i: int| 0 <= i < ls.len() implies strip_cr(#[trigger] ls[i]) == ls[i] by {
            let l = ls[i];
            assert(l.len() > 0 ==> l[l.len() - 1] != '\r');
        }
        assert(lines(s) =~= ls);
    }
}

proof fn lemma_header_kept(st: ConfScan, raw: Seq<char>, dns_hook: bool)
    requires
        trim(raw).len() > 0,
        trim(raw)[0] == '[',
    ensures
        conf_step(st, raw, dns_hook).kept == st.kept.push(raw),
{
    reveal_strlit("dns");
    reveal_strlit("postup");
    reveal_strlit("preup");
    reveal_strlit("postdown");
    reveal_strlit("predown");
    reveal_strlit("table");
    let key = ascii_lower(trim(raw));
    assert(key[0] == '[');
    assert(has_prefix(key, "dns"@) ==> key.take(3)[0] == 'd');
    assert(has_prefix(key, "postup"@) ==> key.take(6)[0] == 'p');
    assert(has_prefix(key, "preup"@) ==> key.take(5)[0] == 'p');
    assert(has_prefix(key, "postdown"@) ==> key.take(8)[0] == 'p');
    assert(has_prefix(key, "predown"@) ==> key.take(7)[0] == 'p');
    assert(has_prefix(key, "table"@) ==> key.take(5)[0] == 't');
}

/// Scanning the kept lines again keeps them all and ends in the same place.
proof fn lemma_scan_fixed(ls: Seq<Seq<char>>, dns_hook: bool)
    ensures
        conf_scan(conf_scan(ls, dns_hook).kept, dns_hook) == conf_scan(ls, dns_hook),
    decreases ls.len(),
{
    if ls.len() > 0 {
        let prev = conf_scan(ls.drop_last(), dns_hook);
        lemma_scan_fixed(ls.drop_last(), dns_hook);
        let x = ls.last();
        let cur = conf_scan(ls, dns_hook);
        if trim(x).len() > 0 && trim(x)[0] == '[' {
            lemma_header_kept(prev, x, dns_hook);
        }
        if cur.kept.len() != prev.kept.len() {
            assert(cur.kept == prev.kept.push(x));
            assert(cur.kept.drop_last() =~= prev.kept);
        }
    }
}

/// Filtering a configuration that was already filtered changes nothing:
/// every header of the profile is kept, so each kept line is met again in
/// the same section and kept again (for texts without carriage returns, whose
/// line endings `str::lines` would fold).
pub proof fn lemma_conf_idempotent(text: Seq<char>, dns_hook: bool)
    requires
        free_of(text, '\r'),
    ensures
        wg_conf(wg_conf(text, dns_hook), dns_hook) == wg_conf(text, dns_hook),
{
    let ls = lines(text);
    let k = kept_lines(text, dns_hook);
    lemma_lines_pieces(text);
    lemma_scan_kept(ls, dns_hook);
    assert forall|i: int| 0 <= i < k.len() implies free_of(#[trigger] k[i], '\n') && free_of(
        k[i],
        '\r',
    ) by {
        assert(ls.contains(k[i]));
        let j = choose|j: int| 0 <= j < ls.len() && ls[j] == k[i];
        assert(free_of(ls[j], '\n'));
    }
    lemma_lines_with_newlines(k);
    lemma_scan_fixed(ls, dns_hook);
}

} // verus!
