use vstd::prelude::*;
use vstd::string::*;

use crate::account::accounts_view;
use crate::account::AccountType;
use crate::account::AccountView;
use crate::account::YuukiAccount;
use crate::errors::YuukiError;
use crate::strutil::chars_of;
use crate::strutil::string_of;

verus! {

// The persistence store is a human-readable structured text document: one
// block of four lines per account, in list order,
//
//   - id: <value>
//     username: <value>
//     account_type: <family name>
//     provider: <value>
//
// where each <value> is the account's field with `\` written as `\\` and a
// line break written as `\n`, so that a value never spans lines.
/// The line prefix introducing an account's id.
pub open spec fn id_prefix() -> Seq<char> {
    "- id: "@
}

/// The line prefix introducing an account's username.
pub open spec fn username_prefix() -> Seq<char> {
    "  username: "@
}

/// The line prefix introducing an account's family.
pub open spec fn type_prefix() -> Seq<char> {
    "  account_type: "@
}

/// The line prefix introducing an account's provider.
pub open spec fn provider_prefix() -> Seq<char> {
    "  provider: "@
}

/// No character of `s` is a line break.
pub open spec fn no_newline(s: Seq<char>) -> bool {
    forall|i: int| 0 <= i < s.len() ==> #[trigger] s[i] != '\n'
}

/// How a single character is written in a stored value.
pub open spec fn spec_escape_char(c: char) -> Seq<char> {
    if c == '\\' {
        seq!['\\', '\\']
    } else if c == '\n' {
        seq!['\\', 'n']
    } else {
        seq![c]
    }
}

/// How a field value is written in the store: character-wise escaping.
pub open spec fn spec_escape(s: Seq<char>) -> Seq<char>
    decreases s.len(),
{
    if s.len() == 0 {
        Seq::empty()
    } else {
        spec_escape_char(s[0]) + spec_escape(s.drop_first())
    }
}

/// How a stored value is read back; fails on a dangling or unknown escape.
pub open spec fn spec_unescape(s: Seq<char>) -> Option<Seq<char>>
    decreases s.len(),
{
    if s.len() == 0 {
        Some(Seq::empty())
    } else if s[0] == '\\' {
        if s.len() >= 2 && (s[1] == '\\' || s[1] == 'n') {
            let c = if s[1] == '\\' {
                '\\'
            } else {
                '\n'
            };
            match spec_unescape(s.skip(2)) {
                None => None,
                Some(r) => Some(seq![c] + r),
            }
        } else {
            None
        }
    } else {
        match spec_unescape(s.drop_first()) {
            None => None,
            Some(r) => Some(seq![s[0]] + r),
        }
    }
}

/// Escaping distributes over concatenation.
pub proof fn lemma_escape_concat(a: Seq<char>, b: Seq<char>)
    ensures
        spec_escape(a + b) == spec_escape(a) + spec_escape(b),
    decreases a.len(),
{
    if a.len() == 0 {
        assert(a + b =~= b);
        assert(spec_escape(a) + spec_escape(b) =~= spec_escape(b));
    } else {
        assert((a + b)[0] == a[0]);
        assert((a + b).drop_first() =~= a.drop_first() + b);
        lemma_escape_concat(a.drop_first(), b);
        assert(spec_escape_char(a[0]) + (spec_escape(a.drop_first()) + spec_escape(b))
            =~= (spec_escape_char(a[0]) + spec_escape(a.drop_first())) + spec_escape(b));
    }
}

/// An escaped value never contains a line break.
pub proof fn lemma_escape_no_newline(s: Seq<char>)
    ensures
        no_newline(spec_escape(s)),
    decreases s.len(),
{
    if s.len() > 0 {
        lemma_escape_no_newline(s.drop_first());
        assert forall|i: int| 0 <= i < spec_escape(s).len() implies #[trigger] spec_escape(s)[i]
            != '\n' by {
            let head = spec_escape_char(s[0]);
            if i < head.len() {
                assert(spec_escape(s)[i] == head[i]);
            } else {
                assert(spec_escape(s)[i] == spec_escape(s.drop_first())[i - head.len()]);
            }
        }
    }
}

/// Reading an escaped value back yields the original value.
pub proof fn lemma_unescape_escape(s: Seq<char>)
    ensures
        spec_unescape(spec_escape(s)) == Some(s),
    decreases s.len(),
{
    if s.len() > 0 {
        let c = s[0];
        let head = spec_escape_char(c);
        let tail = spec_escape(s.drop_first());
        lemma_unescape_escape(s.drop_first());
        if c == '\\' || c == '\n' {
            assert(spec_escape(s).len() >= 2);
            assert(spec_escape(s)[0] == head[0]);
            assert(spec_escape(s)[1] == head[1]);
            assert(spec_escape(s).skip(2) =~= tail);
            assert(seq![c] + s.drop_first() =~= s);
        } else {
            assert(spec_escape(s)[0] == c);
            assert(spec_escape(s).drop_first() =~= tail);
            assert(seq![c] + s.drop_first() =~= s);
        }
    }
}

/// Splits a document into its first line (without the terminating line
/// break) and the rest; fails when no line break terminates it.
pub open spec fn spec_take_line(s: Seq<char>) -> Option<(Seq<char>, Seq<char>)>
    decreases s.len(),
{
    if s.len() == 0 {
        None
    } else if s[0] == '\n' {
        Some((Seq::empty(), s.drop_first()))
    } else {
        match spec_take_line(s.drop_first()) {
            None => None,
            Some(p) => Some((seq![s[0]] + p.0, p.1)),
        }
    }
}

/// A line without line breaks, followed by a line break and any rest, splits
/// back into exactly that line and that rest.
pub proof fn lemma_take_line_build(l: Seq<char>, r: Seq<char>)
    requires
        no_newline(l),
    ensures
        spec_take_line(l + seq!['\n'] + r) == Some((l, r)),
    decreases l.len(),
{
    let s = l + seq!['\n'] + r;
    if l.len() == 0 {
        assert(s[0] == '\n');
        assert(s.drop_first() =~= r);
        assert(l =~= Seq::<char>::empty());
    } else {
        assert(s[0] == l[0]);
        assert(l[0] != '\n');
        assert(s.drop_first() =~= l.drop_first() + seq!['\n'] + r);
        lemma_take_line_build(l.drop_first(), r);
        assert(seq![s[0]] + l.drop_first() =~= l);
    }
}

/// A document without line breaks has no complete line.
pub proof fn lemma_take_line_no_newline(s: Seq<char>)
    requires
        no_newline(s),
    ensures
        spec_take_line(s) is None,
    decreases s.len(),
{
    if s.len() > 0 {
        lemma_take_line_no_newline(s.drop_first());
    }
}

/// The rest of `l` after the fixed prefix `p`, if `l` starts with it.
pub open spec fn spec_strip_prefix(l: Seq<char>, p: Seq<char>) -> Option<Seq<char>> {
    if p.len() <= l.len() && l.subrange(0, p.len() as int) == p {
        Some(l.skip(p.len() as int))
    } else {
        None
    }
}

/// A field line: the fixed prefix, then the escaped value.
pub open spec fn spec_parse_field(l: Seq<char>, p: Seq<char>) -> Option<Seq<char>> {
    match spec_strip_prefix(l, p) {
        None => None,
        Some(v) => spec_unescape(v),
    }
}

/// The stored name of an account family.
pub open spec fn spec_type_name(t: AccountType) -> Seq<char> {
    match t {
        AccountType::Microsoft => "Microsoft"@,
        AccountType::Offline => "Offline"@,
        AccountType::LittleSkin => "LittleSkin"@,
    }
}

/// Reads an account family back from its stored name.
pub open spec fn spec_parse_type(s: Seq<char>) -> Option<AccountType> {
    if s == "Microsoft"@ {
        Some(AccountType::Microsoft)
    } else if s == "Offline"@ {
        Some(AccountType::Offline)
    } else if s == "LittleSkin"@ {
        Some(AccountType::LittleSkin)
    } else {
        None
    }
}

/// The three family names are pairwise distinct, none contains a line break,
/// and each reads back to its family.
pub proof fn lemma_type_name_round_trip(t: AccountType)
    ensures
        spec_parse_type(spec_type_name(t)) == Some(t),
        no_newline(spec_type_name(t)),
{
    reveal_strlit("Microsoft");
    reveal_strlit("Offline");
    reveal_strlit("LittleSkin");
    assert("Microsoft"@.len() == 9);
    assert("Offline"@.len() == 7);
    assert("LittleSkin"@.len() == 10);
    match t {
        AccountType::Microsoft => {
            assert(spec_type_name(t) == "Microsoft"@);
        },
        AccountType::Offline => {
            assert(spec_type_name(t) == "Offline"@);
            assert(spec_type_name(t) != "Microsoft"@);
        },
        AccountType::LittleSkin => {
            assert(spec_type_name(t) == "LittleSkin"@);
            assert(spec_type_name(t) != "Microsoft"@);
            assert(spec_type_name(t) != "Offline"@);
        },
    }
}

/// How one account is written: its four lines.
pub open spec fn spec_encode_record(a: AccountView) -> Seq<char> {
    id_prefix() + spec_escape(a.id) + seq!['\n'] + username_prefix() + spec_escape(a.username)
        + seq!['\n'] + type_prefix() + spec_type_name(a.account_type) + seq!['\n']
        + provider_prefix() + spec_escape(a.provider) + seq!['\n']
}

/// Reads one account block off the front of a document, yielding the account
/// and the rest of the document.
pub open spec fn spec_parse_record(s: Seq<char>) -> Option<(AccountView, Seq<char>)> {
    match spec_take_line(s) {
        None => None,
        Some((l0, s1)) => match spec_take_line(s1) {
            None => None,
            Some((l1, s2)) => match spec_take_line(s2) {
                None => None,
                Some((l2, s3)) => match spec_take_line(s3) {
                    None => None,
                    Some((l3, rest)) => match spec_parse_field(l0, id_prefix()) {
                        None => None,
                        Some(id) => match spec_parse_field(l1, username_prefix()) {
                            None => None,
                            Some(username) => match spec_strip_prefix(l2, type_prefix()) {
                                None => None,
                                Some(tn) => match spec_parse_type(tn) {
                                    None => None,
                                    Some(account_type) => match spec_parse_field(
                                        l3,
                                        provider_prefix(),
                                    ) {
                                        None => None,
                                        Some(provider) => Some(
                                            (
                                                AccountView { id, username, account_type, provider },
                                                rest,
                                            ),
                                        ),
                                    },
                                },
                            },
                        },
                    },
                },
            },
        },
    }
}

/// How an account list is written: its records in order.
pub open spec fn spec_encode_accounts(accs: Seq<AccountView>) -> Seq<char>
    decreases accs.len(),
{
    if accs.len() == 0 {
        Seq::empty()
    } else {
        spec_encode_record(accs[0]) + spec_encode_accounts(accs.drop_first())
    }
}

/// Reads a whole document: account blocks until the document is exhausted.
pub open spec fn spec_parse_accounts(s: Seq<char>) -> Option<Seq<AccountView>>
    decreases s.len(),
{
    if s.len() == 0 {
        Some(Seq::empty())
    } else {
        match spec_parse_record(s) {
            None => None,
            Some((a, rest)) => if rest.len() < s.len() {
                match spec_parse_accounts(rest) {
                    None => None,
                    Some(t) => Some(seq![a] + t),
                }
            } else {
                None
            },
        }
    }
}

/// Concatenating sequences with no line breaks yields one with no line
/// breaks.
proof fn lemma_no_newline_concat(a: Seq<char>, b: Seq<char>)
    requires
        no_newline(a),
        no_newline(b),
    ensures
        no_newline(a + b),
{
    assert forall|i: int| 0 <= i < (a + b).len() implies #[trigger] (a + b)[i] != '\n' by {
        if i < a.len() {
            assert((a + b)[i] == a[i]);
        } else {
            assert((a + b)[i] == b[i - a.len()]);
        }
    }
}

/// The four line prefixes contain no line break.
proof fn lemma_prefixes()
    ensures
        no_newline(id_prefix()),
        no_newline(username_prefix()),
        no_newline(type_prefix()),
        no_newline(provider_prefix()),
        id_prefix().len() == 6,
        username_prefix().len() == 12,
        type_prefix().len() == 16,
        provider_prefix().len() == 12,
{
    reveal_strlit("- id: ");
    reveal_strlit("  username: ");
    reveal_strlit("  account_type: ");
    reveal_strlit("  provider: ");
}

/// A field line built from a prefix and an escaped value parses back to the
/// value.
proof fn lemma_parse_field_build(p: Seq<char>, v: Seq<char>)
    ensures
        spec_parse_field(p + spec_escape(v), p) == Some(v),
{
    let l = p + spec_escape(v);
    assert(l.subrange(0, p.len() as int) =~= p);
    assert(l.skip(p.len() as int) =~= spec_escape(v));
    lemma_unescape_escape(v);
}

/// One encoded record, followed by any rest, parses back to the account and
/// that rest; a record is never empty.
proof fn lemma_parse_record_of_encode(a: AccountView, rest: Seq<char>)
    ensures
        spec_parse_record(spec_encode_record(a) + rest) == Some((a, rest)),
        spec_encode_record(a).len() >= 1,
{
    lemma_prefixes();
    lemma_escape_no_newline(a.id);
    lemma_escape_no_newline(a.username);
    lemma_escape_no_newline(a.provider);
    lemma_type_name_round_trip(a.account_type);
    let l0 = id_prefix() + spec_escape(a.id);
    let l1 = username_prefix() + spec_escape(a.username);
    let l2 = type_prefix() + spec_type_name(a.account_type);
    let l3 = provider_prefix() + spec_escape(a.provider);
    lemma_no_newline_concat(id_prefix(), spec_escape(a.id));
    lemma_no_newline_concat(username_prefix(), spec_escape(a.username));
    lemma_no_newline_concat(type_prefix(), spec_type_name(a.account_type));
    lemma_no_newline_concat(provider_prefix(), spec_escape(a.provider));
    let s = spec_encode_record(a) + rest;
    let t1 = l1 + seq!['\n'] + (l2 + seq!['\n'] + (l3 + seq!['\n'] + rest));
    let t2 = l2 + seq!['\n'] + (l3 + seq!['\n'] + rest);
    let t3 = l3 + seq!['\n'] + rest;
    assert(s =~= l0 + seq!['\n'] + t1);
    lemma_take_line_build(l0, t1);
    lemma_take_line_build(l1, t2);
    lemma_take_line_build(l2, t3);
    lemma_take_line_build(l3, rest);
    lemma_parse_field_build(id_prefix(), a.id);
    lemma_parse_field_build(username_prefix(), a.username);
    lemma_parse_field_build(provider_prefix(), a.provider);
    assert(l2.subrange(0, type_prefix().len() as int) =~= type_prefix());
    assert(l2.skip(type_prefix().len() as int) =~= spec_type_name(a.account_type));
}

/// Writing one more account appends its record to the document.
proof fn lemma_encode_accounts_snoc(s: Seq<AccountView>, a: AccountView)
    ensures
        spec_encode_accounts(s.push(a)) == spec_encode_accounts(s) + spec_encode_record(a),
    decreases s.len(),
{
    if s.len() == 0 {
        assert(s.push(a)[0] == a);
        assert(s.push(a).drop_first() =~= Seq::<AccountView>::empty());
        assert(spec_encode_record(a) + spec_encode_accounts(Seq::<AccountView>::empty())
            =~= spec_encode_record(a));
        assert(spec_encode_accounts(s) + spec_encode_record(a) =~= spec_encode_record(a));
    } else {
        assert(s.push(a)[0] == s[0]);
        assert(s.push(a).drop_first() =~= s.drop_first().push(a));
        lemma_encode_accounts_snoc(s.drop_first(), a);
        assert(spec_encode_record(s[0]) + (spec_encode_accounts(s.drop_first())
            + spec_encode_record(a)) =~= (spec_encode_record(s[0]) + spec_encode_accounts(
            s.drop_first(),
        )) + spec_encode_record(a));
    }
}

/// Appends the characters of `p` to `out`.
fn append_chars(out: &mut Vec<char>, p: &Vec<char>)
    ensures
        final(out)@ == old(out)@ + p@,
{
    let mut i: usize = 0;
    while i < p.len()
        invariant
            i <= p@.len(),
            out@ == old(out)@ + p@.subrange(0, i as int),
        decreases p@.len() - i,
    {
        out.push(p[i]);
        proof {
            assert(old(out)@ + p@.subrange(0, i + 1 as int) =~= (old(out)@ + p@.subrange(
                0,
                i as int,
            )).push(p@[i as int]));
        }
        i = i + 1;
    }
    proof {
        assert(p@.subrange(0, p@.len() as int) =~= p@);
    }
}

/// Appends the characters of the string slice `p` to `out`.
fn append_str(out: &mut Vec<char>, p: &str)
    ensures
        final(out)@ == old(out)@ + p@,
{
    let cs = chars_of(p);
    append_chars(out, &cs);
}

/// Appends the escaped form of `v` to `out`.
fn escape_into(out: &mut Vec<char>, v: &Vec<char>)
    ensures
        final(out)@ == old(out)@ + spec_escape(v@),
{
    let mut i: usize = 0;
    while i < v.len()
        invariant
            i <= v@.len(),
            out@ == old(out)@ + spec_escape(v@.subrange(0, i as int)),
        decreases v@.len() - i,
    {
        let ghost pre = v@.subrange(0, i as int);
        let c = v[i];
        if c == '\\' {
            out.push('\\');
            out.push('\\');
        } else if c == '\n' {
            out.push('\\');
            out.push('n');
        } else {
            out.push(c);
        }
        proof {
            let pre1 = v@.subrange(0, i + 1 as int);
            assert(pre1 =~= pre + seq![c]);
            lemma_escape_concat(pre, seq![c]);
            assert(seq![c].drop_first() =~= Seq::<char>::empty());
            assert(seq![c][0] == c);
            assert(seq![c].len() == 1);
            assert(spec_escape(Seq::<char>::empty()) == Seq::<char>::empty());
            assert(spec_escape_char(c) + Seq::<char>::empty() =~= spec_escape_char(c));
            assert(spec_escape(seq![c]) =~= spec_escape_char(c));
            assert(out@ =~= old(out)@ + spec_escape(pre) + spec_escape_char(c));
            assert(out@ =~= old(out)@ + spec_escape(pre1));
        }
        i = i + 1;
    }
    proof {
        assert(v@.subrange(0, v@.len() as int) =~= v@);
    }
}

/// Appends the four lines that store `a` to `out`.
fn encode_record_into(out: &mut Vec<char>, a: &YuukiAccount)
    ensures
        final(out)@ == old(out)@ + spec_encode_record(a@),
{
    append_str(out, "- id: ");
    let idc = chars_of(a.id.as_str());
    escape_into(out, &idc);
    out.push('\n');
    append_str(out, "  username: ");
    let unc = chars_of(a.username.as_str());
    escape_into(out, &unc);
    out.push('\n');
    append_str(out, "  account_type: ");
    match a.account_type {
        AccountType::Microsoft => append_str(out, "Microsoft"),
        AccountType::Offline => append_str(out, "Offline"),
        AccountType::LittleSkin => append_str(out, "LittleSkin"),
    }
    out.push('\n');
    append_str(out, "  provider: ");
    let pvc = chars_of(a.provider.as_str());
    escape_into(out, &pvc);
    out.push('\n');
    proof {
        assert(out@ =~= old(out)@ + spec_encode_record(a@));
    }
}

/// Writes the account list as a persistence-store document.
pub fn encode_account_store(accounts: &Vec<YuukiAccount>) -> (r: String)
    ensures
        r@ == spec_encode_accounts(accounts_view(accounts@)),
{
    let mut out: Vec<char> = Vec::new();
    let mut i: usize = 0;
    while i < accounts.len()
        invariant
            i <= accounts@.len(),
            out@ == spec_encode_accounts(accounts_view(accounts@).subrange(0, i as int)),
        decreases accounts@.len() - i,
    {
        encode_record_into(&mut out, &accounts[i]);
        proof {
            let av = accounts_view(accounts@);
            assert(av.subrange(0, i + 1 as int) =~= av.subrange(0, i as int).push(
                av[i as int],
            ));
            lemma_encode_accounts_snoc(av.subrange(0, i as int), av[i as int]);
            assert(av[i as int] == accounts@[i as int]@);
        }
        i = i + 1;
    }
    proof {
        let av = accounts_view(accounts@);
        assert(av.subrange(0, av.len() as int) =~= av);
    }
    string_of(&out)
}

/// The position of the first line break at or after `start`, if any.
fn find_newline(v: &Vec<char>, start: usize) -> (r: Option<usize>)
    requires
        start <= v@.len(),
    ensures
        match r {
            Some(j) => {
                &&& start <= j < v@.len()
                &&& v@[j as int] == '\n'
                &&& no_newline(v@.subrange(start as int, j as int))
            },
            None => no_newline(v@.skip(start as int)),
        },
{
    let mut j: usize = start;
    while j < v.len()
        invariant
            start <= j <= v@.len(),
            forall|k: int| start <= k < j ==> #[trigger] v@[k] != '\n',
        decreases v@.len() - j,
    {
        if v[j] == '\n' {
            return Some(j);
        }
        j = j + 1;
    }
    None
}

/// Whether the characters of `p` stand at `start` inside `v`, before `end`.
fn match_at(v: &Vec<char>, start: usize, end: usize, p: &Vec<char>) -> (r: bool)
    requires
        start <= end <= v@.len(),
    ensures
        r == (p@.len() <= end - start && v@.subrange(start as int, start + p@.len()) == p@),
{
    if p.len() > end - start {
        return false;
    }
    let mut k: usize = 0;
    while k < p.len()
        invariant
            p@.len() <= end - start,
            start <= end <= v@.len(),
            k <= p@.len(),
            forall|t: int| 0 <= t < k ==> #[trigger] v@[start + t] == p@[t],
        decreases p@.len() - k,
    {
        if v[start + k] != p[k] {
            proof {
                assert(v@.subrange(start as int, start + p@.len())[k as int] == v@[start + k]);
            }
            return false;
        }
        k = k + 1;
    }
    proof {
        assert forall|t: int| 0 <= t < p@.len() implies v@.subrange(
            start as int,
            start + p@.len(),
        )[t] == p@[t] by {
            assert(v@[start + t] == p@[t]);
        }
        assert(v@.subrange(start as int, start + p@.len()) =~= p@);
    }
    true
}

/// Whether the characters of `v` between `start` and `end` are exactly `p`.
fn eq_at(v: &Vec<char>, start: usize, end: usize, p: &Vec<char>) -> (r: bool)
    requires
        start <= end <= v@.len(),
    ensures
        r == (v@.subrange(start as int, end as int) == p@),
{
    if end - start != p.len() {
        return false;
    }
    let r = match_at(v, start, end, p);
    proof {
        if r {
            assert(v@.subrange(start as int, end as int) =~= v@.subrange(
                start as int,
                start + p@.len(),
            ));
        }
    }
    r
}

/// Reads the stored value between `start` and `end` back, undoing the
/// escaping; fails on a dangling or unknown escape.
fn unescape_range(v: &Vec<char>, start: usize, end: usize) -> (r: Option<Vec<char>>)
    requires
        start <= end <= v@.len(),
    ensures
        match r {
            Some(out) => spec_unescape(v@.subrange(start as int, end as int)) == Some(out@),
            None => spec_unescape(v@.subrange(start as int, end as int)) is None,
        },
{
    let ghost whole = v@.subrange(start as int, end as int);
    let mut out: Vec<char> = Vec::new();
    let mut k: usize = start;
    while k < end
        invariant
            start <= k <= end <= v@.len(),
            whole == v@.subrange(start as int, end as int),
            match spec_unescape(v@.subrange(k as int, end as int)) {
                None => spec_unescape(whole) is None,
                Some(t) => spec_unescape(whole) == Some(out@ + t),
            },
        decreases end - k,
    {
        let ghost here = v@.subrange(k as int, end as int);
        let c = v[k];
        proof {
            assert(here[0] == v@[k as int]);
        }
        if c == '\\' {
            if k + 1 >= end {
                proof {
                    assert(here.len() < 2);
                }
                return None;
            }
            let c2 = v[k + 1];
            proof {
                assert(here[1] == v@[k + 1]);
            }
            if c2 == '\\' {
                out.push('\\');
            } else if c2 == 'n' {
                out.push('\n');
            } else {
                return None;
            }
            proof {
                let dec = if c2 == '\\' {
                    '\\'
                } else {
                    '\n'
                };
                assert(here.skip(2) =~= v@.subrange(k + 2, end as int));
                match spec_unescape(v@.subrange(k + 2, end as int)) {
                    None => {},
                    Some(t) => {
                        assert(spec_unescape(here) == Some(seq![dec] + t));
                        assert(out@ + t =~= out@.drop_last() + (seq![dec] + t));
                    },
                }
            }
            k = k + 2;
        } else {
            out.push(c);
            proof {
                assert(here.drop_first() =~= v@.subrange(k + 1, end as int));
                match spec_unescape(v@.subrange(k + 1, end as int)) {
                    None => {},
                    Some(t) => {
                        assert(spec_unescape(here) == Some(seq![c] + t));
                        assert(out@ + t =~= out@.drop_last() + (seq![c] + t));
                    },
                }
            }
            k = k + 1;
        }
    }
    proof {
        assert(v@.subrange(k as int, end as int) =~= Seq::<char>::empty());
        assert(out@ + Seq::<char>::empty() =~= out@);
    }
    Some(out)
}

/// Reads a persistence-store document back into an account list. Succeeds
/// exactly on documents the store grammar accepts; anything else is a
/// `ConfigParse` error.
#[verifier::rlimit(100)]
pub fn parse_account_store(s: &str) -> (r: Result<Vec<YuukiAccount>, YuukiError>)
    ensures
        match r {
            Ok(accounts) => spec_parse_accounts(s@) == Some(accounts_view(accounts@)),
            Err(e) => spec_parse_accounts(s@) is None && e matches YuukiError::ConfigParse(_),
        },
{
    let v = chars_of(s);
    let p_id = chars_of("- id: ");
    let p_user = chars_of("  username: ");
    let p_type = chars_of("  account_type: ");
    let p_prov = chars_of("  provider: ");
    let n_ms = chars_of("Microsoft");
    let n_off = chars_of("Offline");
    let n_ls = chars_of("LittleSkin");
    let mut out: Vec<YuukiAccount> = Vec::new();
    let mut pos: usize = 0;
    proof {
        assert(v@.skip(0) =~= v@);
        assert(accounts_view(out@) =~= Seq::<AccountView>::empty());
        match spec_parse_accounts(v@) {
            None => {},
            Some(t) => {
                assert(accounts_view(out@) + t =~= t);
            },
        }
    }
    while pos < v.len()
        invariant
            pos <= v@.len(),
            v@ == s@,
            p_id@ == id_prefix(),
            p_user@ == username_prefix(),
            p_type@ == type_prefix(),
            p_prov@ == provider_prefix(),
            n_ms@ == "Microsoft"@,
            n_off@ == "Offline"@,
            n_ls@ == "LittleSkin"@,
            match spec_parse_accounts(v@.skip(pos as int)) {
                None => spec_parse_accounts(v@) is None,
                Some(t) => spec_parse_accounts(v@) == Some(accounts_view(out@) + t),
            },
        decreases v@.len() - pos,
    {
        let ghost rem0 = v@.skip(pos as int);
        let ghost out_before = out@;
        // first line: the id
        let j0 = match find_newline(&v, pos) {
            Some(j) => j,
            None => {
                proof {
                    lemma_take_line_no_newline(rem0);
                }
                return Err(YuukiError::ConfigParse(String::from_str("malformed account store")));
            },
        };
        let ghost l0 = v@.subrange(pos as int, j0 as int);
        let ghost rem1 = v@.skip(j0 + 1 as int);
        proof {
            assert(rem0 =~= l0 + seq!['\n'] + rem1);
            lemma_take_line_build(l0, rem1);
        }
        // second line: the username
        let j1 = match find_newline(&v, j0 + 1) {
            Some(j) => j,
            None => {
                proof {
                    lemma_take_line_no_newline(rem1);
                }
                return Err(YuukiError::ConfigParse(String::from_str("malformed account store")));
            },
        };
        let ghost l1 = v@.subrange(j0 + 1 as int, j1 as int);
        let ghost rem2 = v@.skip(j1 + 1 as int);
        proof {
            assert(rem1 =~= l1 + seq!['\n'] + rem2);
            lemma_take_line_build(l1, rem2);
        }
        // third line: the account family
        let j2 = match find_newline(&v, j1 + 1) {
            Some(j) => j,
            None => {
                proof {
                    lemma_take_line_no_newline(rem2);
                }
                return Err(YuukiError::ConfigParse(String::from_str("malformed account store")));
            },
        };
        let ghost l2 = v@.subrange(j1 + 1 as int, j2 as int);
        let ghost rem3 = v@.skip(j2 + 1 as int);
        proof {
            assert(rem2 =~= l2 + seq!['\n'] + rem3);
            lemma_take_line_build(l2, rem3);
        }
        // fourth line: the provider
        let j3 = match find_newline(&v, j2 + 1) {
            Some(j) => j,
            None => {
                proof {
                    lemma_take_line_no_newline(rem3);
                }
                return Err(YuukiError::ConfigParse(String::from_str("malformed account store")));
            },
        };
        let ghost l3 = v@.subrange(j2 + 1 as int, j3 as int);
        let ghost rest = v@.skip(j3 + 1 as int);
        proof {
            assert(rem3 =~= l3 + seq!['\n'] + rest);
            lemma_take_line_build(l3, rest);
        }
        // the id field
        if !match_at(&v, pos, j0, &p_id) {
            proof {
                assert(l0.subrange(0, p_id@.len() as int) =~= v@.subrange(
                    pos as int,
                    pos + p_id@.len(),
                ) || l0.len() < p_id@.len());
            }
            return Err(YuukiError::ConfigParse(String::from_str("malformed account store")));
        }
        proof {
            assert(l0.subrange(0, p_id@.len() as int) =~= v@.subrange(
                pos as int,
                pos + p_id@.len(),
            ));
        }
        let idv = match unescape_range(&v, pos + p_id.len(), j0) {
            Some(w) => w,
            None => {
                proof {
                    assert(l0.skip(p_id@.len() as int) =~= v@.subrange(
                        pos + p_id@.len(),
                        j0 as int,
                    ));
                }
                return Err(YuukiError::ConfigParse(String::from_str("malformed account store")));
            },
        };
        proof {
            assert(l0.skip(p_id@.len() as int) =~= v@.subrange(pos + p_id@.len(), j0 as int));
        }
        // the username field
        if !match_at(&v, j0 + 1, j1, &p_user) {
            proof {
                assert(l1.subrange(0, p_user@.len() as int) =~= v@.subrange(
                    j0 + 1 as int,
                    j0 + 1 + p_user@.len(),
                ) || l1.len() < p_user@.len());
            }
            return Err(YuukiError::ConfigParse(String::from_str("malformed account store")));
        }
        proof {
            assert(l1.subrange(0, p_user@.len() as int) =~= v@.subrange(
                j0 + 1 as int,
                j0 + 1 + p_user@.len(),
            ));
        }
        let unv = match unescape_range(&v, j0 + 1 + p_user.len(), j1) {
            Some(w) => w,
            None => {
                proof {
                    assert(l1.skip(p_user@.len() as int) =~= v@.subrange(
                        j0 + 1 + p_user@.len(),
                        j1 as int,
                    ));
                }
                return Err(YuukiError::ConfigParse(String::from_str("malformed account store")));
            },
        };
        proof {
            assert(l1.skip(p_user@.len() as int) =~= v@.subrange(
                j0 + 1 + p_user@.len(),
                j1 as int,
            ));
        }
        // the account-family field
        if !match_at(&v, j1 + 1, j2, &p_type) {
            proof {
                assert(l2.subrange(0, p_type@.len() as int) =~= v@.subrange(
                    j1 + 1 as int,
                    j1 + 1 + p_type@.len(),
                ) || l2.len() < p_type@.len());
            }
            return Err(YuukiError::ConfigParse(String::from_str("malformed account store")));
        }
        proof {
            assert(l2.subrange(0, p_type@.len() as int) =~= v@.subrange(
                j1 + 1 as int,
                j1 + 1 + p_type@.len(),
            ));
            assert(l2.skip(p_type@.len() as int) =~= v@.subrange(
                j1 + 1 + p_type@.len(),
                j2 as int,
            ));
        }
        let account_type = if eq_at(&v, j1 + 1 + p_type.len(), j2, &n_ms) {
            AccountType::Microsoft
        } else if eq_at(&v, j1 + 1 + p_type.len(), j2, &n_off) {
            AccountType::Offline
        } else if eq_at(&v, j1 + 1 + p_type.len(), j2, &n_ls) {
            AccountType::LittleSkin
        } else {
            return Err(YuukiError::ConfigParse(String::from_str("malformed account store")));
        };
        // the provider field
        if !match_at(&v, j2 + 1, j3, &p_prov) {
            proof {
                assert(l3.subrange(0, p_prov@.len() as int) =~= v@.subrange(
                    j2 + 1 as int,
                    j2 + 1 + p_prov@.len(),
                ) || l3.len() < p_prov@.len());
            }
            return Err(YuukiError::ConfigParse(String::from_str("malformed account store")));
        }
        proof {
            assert(l3.subrange(0, p_prov@.len() as int) =~= v@.subrange(
                j2 + 1 as int,
                j2 + 1 + p_prov@.len(),
            ));
        }
        let pvv = match unescape_range(&v, j2 + 1 + p_prov.len(), j3) {
            Some(w) => w,
            None => {
                proof {
                    assert(l3.skip(p_prov@.len() as int) =~= v@.subrange(
                        j2 + 1 + p_prov@.len(),
                        j3 as int,
                    ));
                }
                return Err(YuukiError::ConfigParse(String::from_str("malformed account store")));
            },
        };
        proof {
            assert(l3.skip(p_prov@.len() as int) =~= v@.subrange(
                j2 + 1 + p_prov@.len(),
                j3 as int,
            ));
        }
        let account = YuukiAccount {
            id: string_of(&idv),
            username: string_of(&unv),
            account_type,
            provider: string_of(&pvv),
        };
        proof {
            assert(spec_parse_record(rem0) == Some((account@, rest)));
        }
        out.push(account);
        pos = j3 + 1;
        proof {
            assert(rest.len() < rem0.len());
            assert(accounts_view(out@) =~= accounts_view(out_before).push(account@));
            match spec_parse_accounts(rest) {
                None => {
                    assert(spec_parse_accounts(rem0) is None);
                },
                Some(t) => {
                    assert(spec_parse_accounts(rem0) == Some(seq![account@] + t));
                    assert(accounts_view(out@) + t =~= accounts_view(out_before) + (seq![account@]
                        + t));
                },
            }
        }
    }
    proof {
        assert(v@.skip(pos as int) =~= Seq::<char>::empty());
        assert(accounts_view(out@) + Seq::<AccountView>::empty() =~= accounts_view(out@));
    }
    Ok(out)
}

/// Law: any account list, written as a persistence-store document and read
/// back, yields the same list.
pub proof fn lemma_store_round_trip(accounts: Seq<AccountView>)
    ensures
        spec_parse_accounts(spec_encode_accounts(accounts)) == Some(accounts),
    decreases accounts.len(),
{
    if accounts.len() == 0 {
        assert(spec_encode_accounts(accounts).len() == 0);
        assert(accounts =~= Seq::<AccountView>::empty());
    } else {
        let a = accounts[0];
        let tail = accounts.drop_first();
        let s = spec_encode_accounts(accounts);
        lemma_parse_record_of_encode(a, spec_encode_accounts(tail));
        assert(s.len() >= 1);
        lemma_store_round_trip(tail);
        assert(seq![a] + tail =~= accounts);
    }
}

} // verus!
