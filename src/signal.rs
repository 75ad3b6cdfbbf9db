use crate::webrtc::{IceCandidate, SignalMessage};
use vstd::prelude::*;

verus! {

// Wire format: one JSON object per message, externally tagged:
//   {"Offer":{"sdp":"..."}}            {"Answer":{"sdp":"..."}}
//   {"Ice":{"candidate":{"candidate":"...","sdp_mid":"0"|null,"sdp_m_line_index":0|null}}}
//   {"Error":"..."}
// Whitespace may stand between tokens; fields come in the order shown;
// numbers have no leading zeros; `\u` escapes stand for ASCII characters.

/// A signaling message as its text fields.
pub enum MsgView {
    Offer(Seq<char>),
    Answer(Seq<char>),
    Ice(Seq<char>, Option<Seq<char>>, Option<u16>),
    Error(Seq<char>),
}

pub open spec fn opt_view(o: Option<String>) -> Option<Seq<char>> {
    match o {
        Some(s) => Some(s@),
        None => None,
    }
}

pub open spec fn view_of(m: SignalMessage) -> MsgView {
    match m {
        SignalMessage::Offer { sdp } => MsgView::Offer(sdp@),
        SignalMessage::Answer { sdp } => MsgView::Answer(sdp@),
        SignalMessage::Ice { candidate } => MsgView::Ice(
            candidate.candidate@,
            opt_view(candidate.sdp_mid),
            candidate.sdp_m_line_index,
        ),
        SignalMessage::Error(message) => MsgView::Error(message@),
    }
}

pub open spec fn suf(s: Seq<char>, i: int) -> Seq<char> {
    s.subrange(i, s.len() as int)
}

pub open spec fn is_ws(c: char) -> bool {
    c == ' ' || c == '\t' || c == '\n' || c == '\r'
}

pub open spec fn is_digit(c: char) -> bool {
    48 <= (c as u32) <= 57
}

pub open spec fn digit_char(d: nat) -> char {
    ((d + 48) as u8) as char
}

pub open spec fn hex_char(v: nat) -> char {
    if v < 10 {
        ((v + 48) as u8) as char
    } else {
        ((v + 87) as u8) as char
    }
}

pub open spec fn hex_val(c: char) -> Option<nat> {
    let k = c as u32;
    if 48 <= k <= 57 {
        Some((k - 48) as nat)
    } else if 97 <= k <= 102 {
        Some((k - 87) as nat)
    } else if 65 <= k <= 70 {
        Some((k - 55) as nat)
    } else {
        None
    }
}

/// The character a two-character escape `\e` stands for.
pub open spec fn unescape(e: char) -> Option<char> {
    if e == '"' {
        Some('"')
    } else if e == '\\' {
        Some('\\')
    } else if e == '/' {
        Some('/')
    } else if e == 'b' {
        Some('\u{8}')
    } else if e == 'f' {
        Some('\u{c}')
    } else if e == 'n' {
        Some('\n')
    } else if e == 'r' {
        Some('\r')
    } else if e == 't' {
        Some('\t')
    } else {
        None
    }
}

/// How one character is written inside a quoted string.
pub open spec fn esc_char(c: char) -> Seq<char> {
    if c == '"' {
        seq!['\\', '"']
    } else if c == '\\' {
        seq!['\\', '\\']
    } else if c == '\n' {
        seq!['\\', 'n']
    } else if c == '\r' {
        seq!['\\', 'r']
    } else if c == '\t' {
        seq!['\\', 't']
    } else if c == '\u{8}' {
        seq!['\\', 'b']
    } else if c == '\u{c}' {
        seq!['\\', 'f']
    } else if (c as u32) < 32 {
        seq!['\\', 'u', '0', '0', hex_char((c as u32 / 16) as nat), hex_char((c as u32 % 16) as nat)]
    } else {
        seq![c]
    }
}

pub open spec fn esc(s: Seq<char>) -> Seq<char>
    decreases s.len(),
{
    if s.len() == 0 {
        Seq::<char>::empty()
    } else {
        esc_char(s[0]) + esc(s.drop_first())
    }
}

pub open spec fn quoted(s: Seq<char>) -> Seq<char> {
    seq!['"'] + esc(s) + seq!['"']
}

/// Decimal digits of `n`, without leading zeros.
pub open spec fn digits(n: nat) -> Seq<char>
    decreases n,
{
    if n < 10 {
        seq![digit_char(n)]
    } else {
        digits(n / 10).push(digit_char(n % 10))
    }
}

pub open spec fn opt_quoted(o: Option<Seq<char>>) -> Seq<char> {
    match o {
        Some(s) => quoted(s),
        None => "null"@,
    }
}

pub open spec fn opt_digits(o: Option<u16>) -> Seq<char> {
    match o {
        Some(n) => digits(n as nat),
        None => "null"@,
    }
}

/// The pieces of `ts` joined in order.
pub open spec fn cat(ts: Seq<Seq<char>>) -> Seq<char>
    decreases ts.len(),
{
    if ts.len() == 0 {
        Seq::<char>::empty()
    } else {
        ts[0] + cat(ts.drop_first())
    }
}

/// The tokens and values of a message's text, in order.
pub open spec fn pieces(m: MsgView) -> Seq<Seq<char>> {
    match m {
        MsgView::Offer(sdp) =>
            seq!["{"@, "\"Offer\""@, ":"@, "{"@, "\"sdp\""@, ":"@, quoted(sdp), "}"@, "}"@],
        MsgView::Answer(sdp) =>
            seq!["{"@, "\"Answer\""@, ":"@, "{"@, "\"sdp\""@, ":"@, quoted(sdp), "}"@, "}"@],
        MsgView::Ice(c, mid, idx) =>
            seq![
                "{"@,
                "\"Ice\""@,
                ":"@,
                "{"@,
                "\"candidate\""@,
                ":"@,
                "{"@,
                "\"candidate\""@,
                ":"@,
                quoted(c),
                ","@,
                "\"sdp_mid\""@,
                ":"@,
                opt_quoted(mid),
                ","@,
                "\"sdp_m_line_index\""@,
                ":"@,
                opt_digits(idx),
                "}"@,
                "}"@,
                "}"@,
            ],
        MsgView::Error(msg) => seq!["{"@, "\"Error\""@, ":"@, quoted(msg), "}"@],
    }
}

/// The text of a message.
pub open spec fn encode_view(m: MsgView) -> Seq<char> {
    cat(pieces(m))
}

pub open spec fn skip_ws(s: Seq<char>) -> Seq<char>
    decreases s.len(),
{
    if s.len() > 0 && is_ws(s[0]) {
        skip_ws(s.drop_first())
    } else {
        s
    }
}

/// After optional whitespace, the token `t`; yields what follows it.
pub open spec fn tok(s: Seq<char>, t: Seq<char>) -> Option<Seq<char>> {
    let u = skip_ws(s);
    if u.len() >= t.len() && u.subrange(0, t.len() as int) == t {
        Some(u.subrange(t.len() as int, u.len() as int))
    } else {
        None
    }
}

pub open spec fn then_tok(o: Option<Seq<char>>, t: Seq<char>) -> Option<Seq<char>> {
    match o {
        Some(s) => tok(s, t),
        None => None,
    }
}

/// The rest of a quoted string after its opening quote, decoded onto `acc`;
/// yields the text and what follows the closing quote.
pub open spec fn str_body(s: Seq<char>, acc: Seq<char>) -> Option<(Seq<char>, Seq<char>)>
    decreases s.len(),
{
    if s.len() == 0 {
        None
    } else if s[0] == '"' {
        Some((acc, s.drop_first()))
    } else if s[0] == '\\' {
        if s.len() < 2 {
            None
        } else if unescape(s[1]) is Some {
            str_body(s.subrange(2, s.len() as int), acc.push(unescape(s[1])->Some_0))
        } else if s[1] == 'u' && s.len() >= 6 && s[2] == '0' && s[3] == '0' && hex_val(s[4]) is Some
            && hex_val(s[5]) is Some && hex_val(s[4])->Some_0 < 8 {
            str_body(
                s.subrange(6, s.len() as int),
                acc.push(((16 * hex_val(s[4])->Some_0 + hex_val(s[5])->Some_0) as u8) as char),
            )
        } else {
            None
        }
    } else if (s[0] as u32) < 32 {
        None
    } else {
        str_body(s.drop_first(), acc.push(s[0]))
    }
}

pub open spec fn string(s: Seq<char>) -> Option<(Seq<char>, Seq<char>)> {
    match tok(s, "\""@) {
        Some(r) => str_body(r, Seq::<char>::empty()),
        None => None,
    }
}

pub open spec fn opt_string(s: Seq<char>) -> Option<(Option<Seq<char>>, Seq<char>)> {
    match tok(s, "null"@) {
        Some(r) => Some((None, r)),
        None => match string(s) {
            Some((v, r)) => Some((Some(v), r)),
            None => None,
        },
    }
}

/// Decimal digits read onto `acc`, as many as there are.
pub open spec fn digits_acc(s: Seq<char>, acc: nat) -> (nat, Seq<char>)
    decreases s.len(),
{
    if s.len() > 0 && is_digit(s[0]) {
        digits_acc(s.drop_first(), acc * 10 + (s[0] as u32 - 48) as nat)
    } else {
        (acc, s)
    }
}

pub open spec fn number(s: Seq<char>) -> Option<(u16, Seq<char>)> {
    let u = skip_ws(s);
    if u.len() == 0 || !is_digit(u[0]) {
        None
    } else if u[0] == '0' && u.len() > 1 && is_digit(u[1]) {
        None
    } else {
        let (v, r) = digits_acc(u, 0);
        if v > 65535 {
            None
        } else {
            Some((v as u16, r))
        }
    }
}

pub open spec fn opt_number(s: Seq<char>) -> Option<(Option<u16>, Seq<char>)> {
    match tok(s, "null"@) {
        Some(r) => Some((None, r)),
        None => match number(s) {
            Some((v, r)) => Some((Some(v), r)),
            None => None,
        },
    }
}

/// `{"sdp": <string>}`
pub open spec fn sdp_body(s: Seq<char>) -> Option<(Seq<char>, Seq<char>)> {
    match then_tok(then_tok(tok(s, "{"@), "\"sdp\""@), ":"@) {
        Some(r) => match string(r) {
            Some((v, r2)) => match tok(r2, "}"@) {
                Some(r3) => Some((v, r3)),
                None => None,
            },
            None => None,
        },
        None => None,
    }
}

/// `, <key> :`
pub open spec fn next_key(s: Seq<char>, key: Seq<char>) -> Option<Seq<char>> {
    then_tok(then_tok(tok(s, ","@), key), ":"@)
}

/// `{"candidate": {"candidate": <string>`
pub open spec fn ice_head(s: Seq<char>) -> Option<(Seq<char>, Seq<char>)> {
    let keys = then_tok(then_tok(then_tok(tok(s, "{"@), "\"candidate\""@), ":"@), "{"@);
    match then_tok(then_tok(keys, "\"candidate\""@), ":"@) {
        Some(r) => string(r),
        None => None,
    }
}

/// `, "sdp_mid": <string or null>`
pub open spec fn ice_mid(s: Seq<char>) -> Option<(Option<Seq<char>>, Seq<char>)> {
    match next_key(s, "\"sdp_mid\""@) {
        Some(r) => opt_string(r),
        None => None,
    }
}

/// `, "sdp_m_line_index": <number or null> } }`
pub open spec fn ice_tail(s: Seq<char>) -> Option<(Option<u16>, Seq<char>)> {
    match next_key(s, "\"sdp_m_line_index\""@) {
        Some(r) => match opt_number(r) {
            Some((idx, r2)) => match then_tok(tok(r2, "}"@), "}"@) {
                Some(r3) => Some((idx, r3)),
                None => None,
            },
            None => None,
        },
        None => None,
    }
}

/// `{"candidate": {"candidate": ..., "sdp_mid": ..., "sdp_m_line_index": ...}}`
pub open spec fn ice_body(s: Seq<char>) -> Option<(MsgView, Seq<char>)> {
    match ice_head(s) {
        Some((c, r)) => match ice_mid(r) {
            Some((mid, r2)) => match ice_tail(r2) {
                Some((idx, r3)) => Some((MsgView::Ice(c, mid, idx), r3)),
                None => None,
            },
            None => None,
        },
        None => None,
    }
}

/// `<tag> :` after optional whitespace.
pub open spec fn tag(s: Seq<char>, name: Seq<char>) -> Option<Seq<char>> {
    then_tok(tok(s, name), ":"@)
}

/// The tag and body of a message.
pub open spec fn tag_body(s: Seq<char>) -> Option<(MsgView, Seq<char>)> {
    if tag(s, "\"Offer\""@) is Some {
        match sdp_body(tag(s, "\"Offer\""@)->Some_0) {
            Some((v, r)) => Some((MsgView::Offer(v), r)),
            None => None,
        }
    } else if tag(s, "\"Answer\""@) is Some {
        match sdp_body(tag(s, "\"Answer\""@)->Some_0) {
            Some((v, r)) => Some((MsgView::Answer(v), r)),
            None => None,
        }
    } else if tag(s, "\"Ice\""@) is Some {
        ice_body(tag(s, "\"Ice\""@)->Some_0)
    } else if tag(s, "\"Error\""@) is Some {
        match string(tag(s, "\"Error\""@)->Some_0) {
            Some((v, r)) => Some((MsgView::Error(v), r)),
            None => None,
        }
    } else {
        None
    }
}

/// What follows the opening brace: tag, body, closing brace, then nothing
/// but whitespace.
pub open spec fn tagged(s: Seq<char>) -> Option<MsgView> {
    match tag_body(s) {
        Some((m, r)) => match tok(r, "}"@) {
            Some(r2) => if skip_ws(r2).len() == 0 {
                Some(m)
            } else {
                None
            },
            None => None,
        },
        None => None,
    }
}

/// The message a text holds, if it is one.
pub open spec fn parse_msg(s: Seq<char>) -> Option<MsgView> {
    match tok(s, "{"@) {
        Some(r) => tagged(r),
        None => None,
    }
}

proof fn lemma_skip_ws_stops(s: Seq<char>)
    requires
        s.len() == 0 || !is_ws(s[0]),
    ensures
        skip_ws(s) == s,
{
}

/// A token followed by anything reads back as that token.
proof fn lemma_tok(t: Seq<char>, rest: Seq<char>)
    requires
        t.len() > 0,
        !is_ws(t[0]),
    ensures
        tok(t + rest, t) == Some(rest),
{
    lemma_skip_ws_stops(t + rest);
    assert((t + rest).subrange(0, t.len() as int) =~= t);
    assert((t + rest).subrange(t.len() as int, (t + rest).len() as int) =~= rest);
}

/// A token does not read where text starting with a different character stands.
proof fn lemma_tok_mismatch(t: Seq<char>, s: Seq<char>, k: int)
    requires
        0 <= k < t.len(),
        k < s.len(),
        s.len() > 0,
        !is_ws(s[0]),
        s[k] != t[k],
    ensures
        tok(s, t) is None,
{
    lemma_skip_ws_stops(s);
    if s.len() >= t.len() {
        assert(s.subrange(0, t.len() as int)[k] != t[k]);
    }
}

proof fn lemma_char_of_code(c: char, k: nat)
    requires
        k == c as u32,
        k < 128,
    ensures
        ((k as u8) as char) == c,
{
    assert(((k as u8) as char) as u32 == k);
}

proof fn lemma_hex(v: nat)
    requires
        v < 16,
    ensures
        hex_val(hex_char(v)) == Some(v),
{
    if v < 10 {
        assert((((v + 48) as u8) as char) as u32 == v + 48);
    } else {
        assert((((v + 87) as u8) as char) as u32 == v + 87);
    }
}

/// An escaped text followed by a closing quote decodes to the text.
proof fn lemma_str_body(x: Seq<char>, rest: Seq<char>, acc: Seq<char>)
    ensures
        str_body(esc(x) + (seq!['"'] + rest), acc) == Some((acc + x, rest)),
    decreases x.len(),
{
    let s = esc(x) + (seq!['"'] + rest);
    if x.len() == 0 {
        assert(esc(x) == Seq::<char>::empty());
        assert(s =~= seq!['"'] + rest);
        assert(s.drop_first() =~= rest);
        assert(acc + x =~= acc);
    } else {
        let c = x[0];
        let t = x.drop_first();
        let r = esc(t) + (seq!['"'] + rest);
        lemma_str_body(t, rest, acc.push(c));
        assert(acc.push(c) + t =~= acc + x);
        let e = esc_char(c);
        assert(s =~= e + r);
        if c == '"' || c == '\\' || c == '\n' || c == '\r' || c == '\t' || c == '\u{8}' || c == '\u{c}' {
            assert(s[0] == '\\');
            assert(s[1] == e[1]);
            assert(unescape(e[1]) == Some(c));
            assert(s.subrange(2, s.len() as int) =~= r);
        } else if (c as u32) < 32 {
            let k = c as u32;
            let hi = (k / 16) as nat;
            let lo = (k % 16) as nat;
            lemma_hex(hi);
            lemma_hex(lo);
            assert(s[0] == '\\' && s[1] == 'u' && s[2] == '0' && s[3] == '0');
            assert(s[4] == hex_char(hi) && s[5] == hex_char(lo));
            assert(16 * hi + lo == k);
            lemma_char_of_code(c, k as nat);
            assert(s.subrange(6, s.len() as int) =~= r);
        } else {
            assert(s[0] == c);
            assert(s.drop_first() =~= r);
        }
    }
}

proof fn lemma_string(x: Seq<char>, rest: Seq<char>)
    ensures
        string(quoted(x) + rest) == Some((x, rest)),
{
    reveal_strlit("\"");
    assert(quoted(x) + rest =~= "\""@ + (esc(x) + (seq!['"'] + rest)));
    lemma_tok("\""@, esc(x) + (seq!['"'] + rest));
    lemma_str_body(x, rest, Seq::<char>::empty());
    assert(Seq::<char>::empty() + x =~= x);
}

/// Value of the decimal digits `d` read onto `acc`.
pub open spec fn fold_digits(d: Seq<char>, acc: nat) -> nat
    decreases d.len(),
{
    if d.len() == 0 {
        acc
    } else {
        fold_digits(d.drop_first(), acc * 10 + (d[0] as u32 - 48) as nat)
    }
}

proof fn lemma_digit_char(d: nat)
    requires
        d < 10,
    ensures
        digit_char(d) as u32 == d + 48,
        is_digit(digit_char(d)),
{
    assert((((d + 48) as u8) as char) as u32 == d + 48);
}

proof fn lemma_digits_all(n: nat)
    ensures
        forall|i: int| 0 <= i < digits(n).len() ==> is_digit(#[trigger] digits(n)[i]),
        digits(n).len() > 0,
    decreases n,
{
    if n < 10 {
        lemma_digit_char(n);
    } else {
        lemma_digits_all(n / 10);
        lemma_digit_char(n % 10);
        assert forall|i: int| 0 <= i < digits(n).len() implies is_digit(#[trigger] digits(n)[i]) by {
            if i < digits(n / 10).len() {
                assert(digits(n)[i] == digits(n / 10)[i]);
            }
        }
    }
}

proof fn lemma_fold_push(d: Seq<char>, c: char, acc: nat)
    ensures
        fold_digits(d.push(c), acc) == fold_digits(d, acc) * 10 + (c as u32 - 48) as nat,
    decreases d.len(),
{
    let e = d.push(c);
    if d.len() == 0 {
        assert(e[0] == c);
        assert(e.drop_first() =~= Seq::<char>::empty());
        assert(fold_digits(e, acc) == fold_digits(e.drop_first(), acc * 10 + (c as u32 - 48) as nat));
    } else {
        let a2 = acc * 10 + (d[0] as u32 - 48) as nat;
        assert(e[0] == d[0]);
        assert(e.drop_first() =~= d.drop_first().push(c));
        lemma_fold_push(d.drop_first(), c, a2);
        assert(fold_digits(e, acc) == fold_digits(e.drop_first(), a2));
        assert(fold_digits(d, acc) == fold_digits(d.drop_first(), a2));
    }
}

proof fn lemma_fold_digits(n: nat)
    ensures
        fold_digits(digits(n), 0) == n,
    decreases n,
{
    if n < 10 {
        lemma_digit_char(n);
        let d = seq![digit_char(n)];
        assert(digits(n) == d);
        assert(d.drop_first() =~= Seq::<char>::empty());
        assert(fold_digits(d, 0) == fold_digits(d.drop_first(), 0 * 10 + (d[0] as u32 - 48) as nat));
    } else {
        lemma_fold_digits(n / 10);
        lemma_digit_char(n % 10);
        lemma_fold_push(digits(n / 10), digit_char(n % 10), 0);
        assert(digits(n) == digits(n / 10).push(digit_char(n % 10)));
        assert((n / 10) * 10 + n % 10 == n) by (nonlinear_arith);
    }
}

proof fn lemma_digits_acc(d: Seq<char>, rest: Seq<char>, acc: nat)
    requires
        forall|i: int| 0 <= i < d.len() ==> is_digit(#[trigger] d[i]),
        rest.len() == 0 || !is_digit(rest[0]),
    ensures
        digits_acc(d + rest, acc) == (fold_digits(d, acc), rest),
    decreases d.len(),
{
    if d.len() == 0 {
        assert(d + rest =~= rest);
    } else {
        assert((d + rest).drop_first() =~= d.drop_first() + rest);
        lemma_digits_acc(d.drop_first(), rest, acc * 10 + (d[0] as u32 - 48) as nat);
    }
}

proof fn lemma_digits_lead(n: nat)
    requires
        n >= 1,
    ensures
        digits(n)[0] != '0',
    decreases n,
{
    if n < 10 {
        lemma_digit_char(n);
    } else {
        lemma_digits_lead(n / 10);
        lemma_digits_all(n / 10);
        assert(digits(n)[0] == digits(n / 10)[0]);
    }
}

proof fn lemma_number(n: u16, rest: Seq<char>)
    requires
        rest.len() == 0 || !is_digit(rest[0]),
    ensures
        number(digits(n as nat) + rest) == Some((n, rest)),
{
    let d = digits(n as nat);
    lemma_digits_all(n as nat);
    assert((d + rest)[0] == d[0]);
    lemma_skip_ws_stops(d + rest);
    if n == 0 {
        assert(d =~= seq![digit_char(0)]);
        assert((d + rest).len() > 1 ==> (d + rest)[1] == rest[0]);
    } else {
        lemma_digits_lead(n as nat);
    }
    lemma_digits_acc(d, rest, 0);
    lemma_fold_digits(n as nat);
}

pub open spec fn from(ts: Seq<Seq<char>>, i: int) -> Seq<char> {
    cat(ts.subrange(i, ts.len() as int))
}

proof fn lemma_from_step(ts: Seq<Seq<char>>, i: int)
    requires
        0 <= i < ts.len(),
    ensures
        from(ts, i) == ts[i] + from(ts, i + 1),
{
    let u = ts.subrange(i, ts.len() as int);
    assert(u[0] == ts[i]);
    assert(u.drop_first() =~= ts.subrange(i + 1, ts.len() as int));
}

proof fn lemma_tok_at(ts: Seq<Seq<char>>, i: int)
    requires
        0 <= i < ts.len(),
        ts[i].len() > 0,
        !is_ws(ts[i][0]),
    ensures
        tok(from(ts, i), ts[i]) == Some(from(ts, i + 1)),
        from(ts, i).len() > 0,
        from(ts, i)[0] == ts[i][0],
        ts[i].len() > 1 ==> from(ts, i)[1] == ts[i][1],
{
    lemma_from_step(ts, i);
    lemma_tok(ts[i], from(ts, i + 1));
}

proof fn lemma_string_at(ts: Seq<Seq<char>>, i: int, x: Seq<char>)
    requires
        0 <= i < ts.len(),
        ts[i] == quoted(x),
    ensures
        string(from(ts, i)) == Some((x, from(ts, i + 1))),
        from(ts, i)[0] == '"',
{
    lemma_from_step(ts, i);
    lemma_string(x, from(ts, i + 1));
}

proof fn lemma_literals()
    ensures
        "{"@ == seq!['{'],
        "}"@ == seq!['}'],
        ":"@ == seq![':'],
        ","@ == seq![','],
        "\""@ == seq!['"'],
        "null"@ == seq!['n', 'u', 'l', 'l'],
        "\"Offer\""@ == seq!['"', 'O', 'f', 'f', 'e', 'r', '"'],
        "\"Answer\""@ == seq!['"', 'A', 'n', 's', 'w', 'e', 'r', '"'],
        "\"Ice\""@ == seq!['"', 'I', 'c', 'e', '"'],
        "\"Error\""@ == seq!['"', 'E', 'r', 'r', 'o', 'r', '"'],
        "\"sdp\""@ == seq!['"', 's', 'd', 'p', '"'],
        "\"candidate\""@ == seq!['"', 'c', 'a', 'n', 'd', 'i', 'd', 'a', 't', 'e', '"'],
        "\"sdp_mid\""@ == seq!['"', 's', 'd', 'p', '_', 'm', 'i', 'd', '"'],
        "\"sdp_m_line_index\""@ == seq![
            '"', 's', 'd', 'p', '_', 'm', '_', 'l', 'i', 'n', 'e', '_', 'i', 'n', 'd', 'e', 'x', '"'
        ],
{
    reveal_strlit("{");
    reveal_strlit("}");
    reveal_strlit(":");
    reveal_strlit(",");
    reveal_strlit("\"");
    reveal_strlit("null");
    reveal_strlit("\"Offer\"");
    reveal_strlit("\"Answer\"");
    reveal_strlit("\"Ice\"");
    reveal_strlit("\"Error\"");
    reveal_strlit("\"sdp\"");
    reveal_strlit("\"candidate\"");
    reveal_strlit("\"sdp_mid\"");
    reveal_strlit("\"sdp_m_line_index\"");
}

proof fn lemma_end(ts: Seq<Seq<char>>)
    ensures
        from(ts, ts.len() as int) == Seq::<char>::empty(),
        skip_ws(Seq::<char>::empty()) == Seq::<char>::empty(),
{
    assert(ts.subrange(ts.len() as int, ts.len() as int) =~= Seq::<Seq<char>>::empty());
}

proof fn lemma_sdp_message(ts: Seq<Seq<char>>, sdp: Seq<char>)
    requires
        ts.len() == 9,
        ts[0] == "{"@ && ts[2] == ":"@ && ts[3] == "{"@ && ts[4] == "\"sdp\""@,
        ts[5] == ":"@ && ts[6] == quoted(sdp) && ts[7] == "}"@ && ts[8] == "}"@,
        ts[1].len() > 1 && ts[1][0] == '"',
    ensures
        tok(from(ts, 0), "{"@) == Some(from(ts, 1)),
        tag(from(ts, 1), ts[1]) == Some(from(ts, 3)),
        sdp_body(from(ts, 3)) == Some((sdp, from(ts, 8))),
        tok(from(ts, 8), "}"@) == Some(Seq::<char>::empty()),
{
    lemma_literals();
    lemma_tok_at(ts, 0);
    lemma_tok_at(ts, 1);
    lemma_tok_at(ts, 2);
    lemma_tok_at(ts, 3);
    lemma_tok_at(ts, 4);
    lemma_tok_at(ts, 5);
    lemma_string_at(ts, 6, sdp);
    lemma_tok_at(ts, 7);
    lemma_tok_at(ts, 8);
    lemma_end(ts);
}

proof fn lemma_ice_message(ts: Seq<Seq<char>>, c: Seq<char>, mid: Option<Seq<char>>, idx: Option<u16>)
    requires
        ts == pieces(MsgView::Ice(c, mid, idx)),
    ensures
        tag_body(from(ts, 1)) == Some((MsgView::Ice(c, mid, idx), from(ts, 20))),
        tok(from(ts, 20), "}"@) == Some(Seq::<char>::empty()),
{
    lemma_literals();
    lemma_end(ts);
    lemma_tok_at(ts, 1);
    let f1 = from(ts, 1);
    lemma_tok_mismatch("\"Offer\""@, f1, 1);
    lemma_tok_mismatch("\"Answer\""@, f1, 1);
    lemma_tok_at(ts, 2);
    lemma_tok_at(ts, 3);
    lemma_tok_at(ts, 4);
    lemma_tok_at(ts, 5);
    lemma_tok_at(ts, 6);
    lemma_tok_at(ts, 7);
    lemma_tok_at(ts, 8);
    lemma_string_at(ts, 9, c);
    lemma_tok_at(ts, 10);
    lemma_tok_at(ts, 11);
    lemma_tok_at(ts, 12);
    match mid {
        Some(x) => {
            lemma_string_at(ts, 13, x);
            lemma_skip_ws_stops(from(ts, 13));
            lemma_tok_mismatch("null"@, from(ts, 13), 0);
        },
        None => {
            lemma_tok_at(ts, 13);
        },
    }
    assert(ice_head(from(ts, 3)) == Some((c, from(ts, 10))));
    assert(ice_mid(from(ts, 10)) == Some((mid, from(ts, 14))));
    lemma_tok_at(ts, 14);
    lemma_tok_at(ts, 15);
    lemma_tok_at(ts, 16);
    lemma_tok_at(ts, 18);
    lemma_tok_at(ts, 19);
    lemma_tok_at(ts, 20);
    match idx {
        Some(n) => {
            lemma_from_step(ts, 17);
            lemma_number(n, from(ts, 18));
            lemma_digits_all(n as nat);
            assert(from(ts, 17)[0] == digits(n as nat)[0]);
            lemma_tok_mismatch("null"@, from(ts, 17), 0);
        },
        None => {
            lemma_tok_at(ts, 17);
        },
    }
    assert(ice_tail(from(ts, 14)) == Some((idx, from(ts, 20))));
    assert(tag_body(f1) == Some((MsgView::Ice(c, mid, idx), from(ts, 20))));
}

/// Signaling round trip: the text of any message reads back as that message.
pub proof fn lemma_round_trip(m: MsgView)
    ensures
        parse_msg(encode_view(m)) == Some(m),
{
    lemma_literals();
    let ts = pieces(m);
    assert(ts.subrange(0, ts.len() as int) =~= ts);
    assert(encode_view(m) == from(ts, 0));
    lemma_end(ts);
    lemma_tok_at(ts, 0);
    lemma_tok_at(ts, 1);
    let f1 = from(ts, 1);
    match m {
        MsgView::Offer(sdp) => {
            lemma_sdp_message(ts, sdp);
        },
        MsgView::Answer(sdp) => {
            lemma_sdp_message(ts, sdp);
            lemma_tok_mismatch("\"Offer\""@, f1, 1);
        },
        MsgView::Ice(c, mid, idx) => {
            lemma_ice_message(ts, c, mid, idx);
        },
        MsgView::Error(msg) => {
            lemma_tok_mismatch("\"Offer\""@, f1, 1);
            lemma_tok_mismatch("\"Answer\""@, f1, 1);
            lemma_tok_mismatch("\"Ice\""@, f1, 1);
            lemma_tok_at(ts, 2);
            lemma_string_at(ts, 3, msg);
            lemma_tok_at(ts, 4);
        },
    }
}

/// Relies on `str::chars` (collected): the text's characters, in order.
#[verifier::external_body]
fn chars_of(s: &str) -> (r: Vec<char>)
    ensures
        r@ == s@,
{
    s.chars().collect()
}

/// Relies on `String::push`: appends one character.
#[verifier::external_body]
fn push_char(s: &mut String, c: char)
    ensures
        final(s)@ == old(s)@.push(c),
{
    s.push(c)
}

/// Relies on `String::push_str`: appends the text.
#[verifier::external_body]
fn push_str(s: &mut String, t: &str)
    ensures
        final(s)@ == old(s)@ + t@,
{
    s.push_str(t)
}

proof fn lemma_esc_push(a: Seq<char>, c: char)
    ensures
        esc(a.push(c)) == esc(a) + esc_char(c),
    decreases a.len(),
{
    if a.len() == 0 {
        assert(a.push(c)[0] == c);
        assert(a.push(c).drop_first() =~= Seq::<char>::empty());
        assert(esc(Seq::<char>::empty()) == Seq::<char>::empty());
        assert(esc(a) == Seq::<char>::empty());
        assert(esc(a.push(c)) =~= esc_char(c));
    } else {
        assert(a.push(c).drop_first() =~= a.drop_first().push(c));
        lemma_esc_push(a.drop_first(), c);
        assert(esc(a.push(c)) =~= esc(a) + esc_char(c));
    }
}

proof fn lemma_cat_push(a: Seq<Seq<char>>, x: Seq<char>)
    ensures
        cat(a.push(x)) == cat(a) + x,
    decreases a.len(),
{
    if a.len() == 0 {
        assert(a.push(x)[0] == x);
        assert(a.push(x).drop_first() =~= Seq::<Seq<char>>::empty());
        assert(cat(Seq::<Seq<char>>::empty()) == Seq::<char>::empty());
        assert(cat(a) == Seq::<char>::empty());
        assert(cat(a.push(x)) =~= x);
    } else {
        assert(a.push(x).drop_first() =~= a.drop_first().push(x));
        lemma_cat_push(a.drop_first(), x);
        assert(cat(a.push(x)) =~= cat(a) + x);
    }
}

proof fn lemma_cat_next(ts: Seq<Seq<char>>, k: int)
    requires
        0 <= k < ts.len(),
    ensures
        cat(ts.subrange(0, k + 1)) == cat(ts.subrange(0, k)) + ts[k],
{
    assert(ts.subrange(0, k + 1) =~= ts.subrange(0, k).push(ts[k]));
    lemma_cat_push(ts.subrange(0, k), ts[k]);
}

fn hex_digit(v: u32) -> (r: char)
    requires
        v < 16,
    ensures
        r == hex_char(v as nat),
{
    if v < 10 {
        ((v + 48) as u8) as char
    } else {
        ((v + 87) as u8) as char
    }
}

fn push_esc_char(out: &mut String, c: char)
    ensures
        final(out)@ == old(out)@ + esc_char(c),
{
    let ghost start = out@;
    if c == '"' || c == '\\' || c == '\n' || c == '\r' || c == '\t' || c == '\u{8}' || c == '\u{c}' {
        let e = if c == '"' {
            '"'
        } else if c == '\\' {
            '\\'
        } else if c == '\n' {
            'n'
        } else if c == '\r' {
            'r'
        } else if c == '\t' {
            't'
        } else if c == '\u{8}' {
            'b'
        } else {
            'f'
        };
        push_char(out, '\\');
        push_char(out, e);
        assert(out@ =~= start + esc_char(c));
    } else if (c as u32) < 32 {
        let k = c as u32;
        push_char(out, '\\');
        push_char(out, 'u');
        push_char(out, '0');
        push_char(out, '0');
        push_char(out, hex_digit(k / 16));
        push_char(out, hex_digit(k % 16));
        assert(out@ =~= start + esc_char(c));
    } else {
        push_char(out, c);
        assert(out@ =~= start + esc_char(c));
    }
}

fn push_quoted(out: &mut String, x: &str)
    ensures
        final(out)@ == old(out)@ + quoted(x@),
{
    let ghost start = out@;
    let cs = chars_of(x);
    push_char(out, '"');
    let mut i: usize = 0;
    while i < cs.len()
        invariant
            cs@ == x@,
            i <= cs@.len(),
            out@ == start + seq!['"'] + esc(cs@.subrange(0, i as int)),
        decreases cs@.len() - i,
    {
        let c = cs[i];
        push_esc_char(out, c);
        proof {
            assert(cs@.subrange(0, i + 1) =~= cs@.subrange(0, i as int).push(c));
            lemma_esc_push(cs@.subrange(0, i as int), c);
            assert(out@ =~= start + seq!['"'] + esc(cs@.subrange(0, i + 1)));
        }
        i = i + 1;
    }
    push_char(out, '"');
    proof {
        assert(cs@.subrange(0, cs@.len() as int) =~= x@);
        assert(out@ =~= start + quoted(x@));
    }
}

fn push_digits(out: &mut String, n: u32)
    ensures
        final(out)@ == old(out)@ + digits(n as nat),
    decreases n,
{
    let ghost start = out@;
    if n >= 10 {
        push_digits(out, n / 10);
    }
    let d = n % 10;
    push_char(out, ((d + 48) as u8) as char);
    proof {
        if n < 10 {
            assert(out@ =~= start + digits(n as nat));
        } else {
            assert(out@ =~= start + digits(n as nat));
        }
    }
}

/// Appends piece `k` of `ts`, given as `t`.
fn push_piece(out: &mut String, t: &str, Ghost(ts): Ghost<Seq<Seq<char>>>, Ghost(k): Ghost<int>)
    requires
        0 <= k < ts.len(),
        ts[k] == t@,
        old(out)@ == cat(ts.subrange(0, k)),
    ensures
        final(out)@ == cat(ts.subrange(0, k + 1)),
{
    push_str(out, t);
    proof {
        lemma_cat_next(ts, k);
    }
}

fn push_quoted_piece(out: &mut String, x: &str, Ghost(ts): Ghost<Seq<Seq<char>>>, Ghost(k): Ghost<int>)
    requires
        0 <= k < ts.len(),
        ts[k] == quoted(x@),
        old(out)@ == cat(ts.subrange(0, k)),
    ensures
        final(out)@ == cat(ts.subrange(0, k + 1)),
{
    push_quoted(out, x);
    proof {
        lemma_cat_next(ts, k);
    }
}

/// The wire text of a message.
pub fn encode_signal(m: &SignalMessage) -> (r: String)
    ensures
        r@ == encode_view(view_of(*m)),
{
    let ghost ts = pieces(view_of(*m));
    let mut out = String::new();
    proof {
        lemma_literals();
        assert(ts.subrange(0, 0) =~= Seq::<Seq<char>>::empty());
        assert(out@ =~= cat(ts.subrange(0, 0)));
    }
    match m {
        SignalMessage::Offer { sdp } => {
            push_piece(&mut out, "{", Ghost(ts), Ghost(0));
            push_piece(&mut out, "\"Offer\"", Ghost(ts), Ghost(1));
            push_piece(&mut out, ":", Ghost(ts), Ghost(2));
            push_piece(&mut out, "{", Ghost(ts), Ghost(3));
            push_piece(&mut out, "\"sdp\"", Ghost(ts), Ghost(4));
            push_piece(&mut out, ":", Ghost(ts), Ghost(5));
            push_quoted_piece(&mut out, sdp.as_str(), Ghost(ts), Ghost(6));
            push_piece(&mut out, "}", Ghost(ts), Ghost(7));
            push_piece(&mut out, "}", Ghost(ts), Ghost(8));
        },
        SignalMessage::Answer { sdp } => {
            push_piece(&mut out, "{", Ghost(ts), Ghost(0));
            push_piece(&mut out, "\"Answer\"", Ghost(ts), Ghost(1));
            push_piece(&mut out, ":", Ghost(ts), Ghost(2));
            push_piece(&mut out, "{", Ghost(ts), Ghost(3));
            push_piece(&mut out, "\"sdp\"", Ghost(ts), Ghost(4));
            push_piece(&mut out, ":", Ghost(ts), Ghost(5));
            push_quoted_piece(&mut out, sdp.as_str(), Ghost(ts), Ghost(6));
            push_piece(&mut out, "}", Ghost(ts), Ghost(7));
            push_piece(&mut out, "}", Ghost(ts), Ghost(8));
        },
        SignalMessage::Ice { candidate } => {
            push_piece(&mut out, "{", Ghost(ts), Ghost(0));
            push_piece(&mut out, "\"Ice\"", Ghost(ts), Ghost(1));
            push_piece(&mut out, ":", Ghost(ts), Ghost(2));
            push_piece(&mut out, "{", Ghost(ts), Ghost(3));
            push_piece(&mut out, "\"candidate\"", Ghost(ts), Ghost(4));
            push_piece(&mut out, ":", Ghost(ts), Ghost(5));
            push_piece(&mut out, "{", Ghost(ts), Ghost(6));
            push_piece(&mut out, "\"candidate\"", Ghost(ts), Ghost(7));
            push_piece(&mut out, ":", Ghost(ts), Ghost(8));
            push_quoted_piece(&mut out, candidate.candidate.as_str(), Ghost(ts), Ghost(9));
            push_piece(&mut out, ",", Ghost(ts), Ghost(10));
            push_piece(&mut out, "\"sdp_mid\"", Ghost(ts), Ghost(11));
            push_piece(&mut out, ":", Ghost(ts), Ghost(12));
            match &candidate.sdp_mid {
                Some(mid) => push_quoted_piece(&mut out, mid.as_str(), Ghost(ts), Ghost(13)),
                None => push_piece(&mut out, "null", Ghost(ts), Ghost(13)),
            }
            push_piece(&mut out, ",", Ghost(ts), Ghost(14));
            push_piece(&mut out, "\"sdp_m_line_index\"", Ghost(ts), Ghost(15));
            push_piece(&mut out, ":", Ghost(ts), Ghost(16));
            match candidate.sdp_m_line_index {
                Some(n) => {
                    push_digits(&mut out, n as u32);
                    proof {
                        lemma_cat_next(ts, 17);
                    }
                },
                None => push_piece(&mut out, "null", Ghost(ts), Ghost(17)),
            }
            push_piece(&mut out, "}", Ghost(ts), Ghost(18));
            push_piece(&mut out, "}", Ghost(ts), Ghost(19));
            push_piece(&mut out, "}", Ghost(ts), Ghost(20));
        },
        SignalMessage::Error(message) => {
            push_piece(&mut out, "{", Ghost(ts), Ghost(0));
            push_piece(&mut out, "\"Error\"", Ghost(ts), Ghost(1));
            push_piece(&mut out, ":", Ghost(ts), Ghost(2));
            push_quoted_piece(&mut out, message.as_str(), Ghost(ts), Ghost(3));
            push_piece(&mut out, "}", Ghost(ts), Ghost(4));
        },
    }
    proof {
        assert(ts.subrange(0, ts.len() as int) =~= ts);
    }
    out
}

fn is_ws_char(c: char) -> (r: bool)
    ensures
        r == is_ws(c),
{
    c == ' ' || c == '\t' || c == '\n' || c == '\r'
}

fn is_digit_char(c: char) -> (r: bool)
    ensures
        r == is_digit(c),
{
    48 <= (c as u32) && (c as u32) <= 57
}

fn hex_value(c: char) -> (r: Option<u32>)
    ensures
        r is None <==> hex_val(c) is None,
        r is Some ==> r->Some_0 as nat == hex_val(c)->Some_0 && r->Some_0 < 16,
{
    let k = c as u32;
    if 48 <= k && k <= 57 {
        Some(k - 48)
    } else if 97 <= k && k <= 102 {
        Some(k - 87)
    } else if 65 <= k && k <= 70 {
        Some(k - 55)
    } else {
        None
    }
}

fn unescape_char(e: char) -> (r: Option<char>)
    ensures
        r == unescape(e),
{
    if e == '"' {
        Some('"')
    } else if e == '\\' {
        Some('\\')
    } else if e == '/' {
        Some('/')
    } else if e == 'b' {
        Some('\u{8}')
    } else if e == 'f' {
        Some('\u{c}')
    } else if e == 'n' {
        Some('\n')
    } else if e == 'r' {
        Some('\r')
    } else if e == 't' {
        Some('\t')
    } else {
        None
    }
}

proof fn lemma_suf_next(s: Seq<char>, i: int, k: int)
    requires
        0 <= i,
        0 <= k,
        i + k <= s.len(),
    ensures
        suf(s, i).subrange(k, suf(s, i).len() as int) == suf(s, i + k),
        suf(s, i).len() == s.len() - i,
{
    assert(suf(s, i).subrange(k, suf(s, i).len() as int) =~= suf(s, i + k));
}

fn skip_ws_at(s: &Vec<char>, i: usize) -> (j: usize)
    requires
        i <= s@.len(),
    ensures
        i <= j <= s@.len(),
        suf(s@, j as int) == skip_ws(suf(s@, i as int)),
{
    let mut j = i;
    while j < s.len() && is_ws_char(s[j])
        invariant
            i <= j <= s@.len(),
            skip_ws(suf(s@, j as int)) == skip_ws(suf(s@, i as int)),
        decreases s@.len() - j,
    {
        proof {
            lemma_suf_next(s@, j as int, 1);
        }
        j = j + 1;
    }
    proof {
        lemma_skip_ws_stops(suf(s@, j as int));
    }
    j
}

/// After optional whitespace, the token `t` at `i`; yields the position after it.
fn tok_at(s: &Vec<char>, i: usize, t: &str) -> (r: Option<usize>)
    requires
        i <= s@.len(),
    ensures
        match r {
            None => tok(suf(s@, i as int), t@) is None,
            Some(j) => j <= s@.len() && tok(suf(s@, i as int), t@) == Some(suf(s@, j as int)),
        },
{
    let tc = chars_of(t);
    let j = skip_ws_at(s, i);
    let ghost u = suf(s@, j as int);
    if s.len() - j < tc.len() {
        return None;
    }
    let mut k: usize = 0;
    while k < tc.len()
        invariant
            tc@ == t@,
            j + tc.len() <= s.len(),
            k <= tc@.len(),
            u == suf(s@, j as int),
            skip_ws(suf(s@, i as int)) == u,
            i <= s@.len(),
            forall|m: int| 0 <= m < k ==> s@[j + m] == tc@[m],
        decreases tc@.len() - k,
    {
        if s[j + k] != tc[k] {
            proof {
                assert(u[k as int] == s@[j + k]);
                assert(u.subrange(0, tc@.len() as int)[k as int] != t@[k as int]);
            }
            return None;
        }
        k = k + 1;
    }
    proof {
        assert(u.subrange(0, tc@.len() as int) =~= t@);
        lemma_suf_next(s@, j as int, tc@.len() as int);
    }
    Some(j + tc.len())
}

/// The body of a quoted string starting at `i`, just after its opening quote.
fn str_body_at(s: &Vec<char>, i: usize) -> (r: Option<(String, usize)>)
    requires
        i <= s@.len(),
    ensures
        match r {
            None => str_body(suf(s@, i as int), Seq::<char>::empty()) is None,
            Some((v, j)) => j <= s@.len() && str_body(suf(s@, i as int), Seq::<char>::empty()) == Some(
                (v@, suf(s@, j as int)),
            ),
        },
{
    let mut acc = String::new();
    let mut k = i;
    while k < s.len()
        invariant
            i <= k <= s@.len(),
            str_body(suf(s@, i as int), Seq::<char>::empty()) == str_body(suf(s@, k as int), acc@),
        decreases s@.len() - k,
    {
        let ghost u = suf(s@, k as int);
        proof {
            lemma_suf_next(s@, k as int, 0);
            assert(u[0] == s@[k as int]);
        }
        let c = s[k];
        if c == '"' {
            proof {
                lemma_suf_next(s@, k as int, 1);
            }
            return Some((acc, k + 1));
        } else if c == '\\' {
            if k + 1 >= s.len() {
                return None;
            }
            let e = s[k + 1];
            proof {
                assert(u[1] == e);
            }
            match unescape_char(e) {
                Some(x) => {
                    push_char(&mut acc, x);
                    proof {
                        lemma_suf_next(s@, k as int, 2);
                    }
                    k = k + 2;
                },
                None => {
                    if e == 'u' && s.len() - k >= 6 && s[k + 2] == '0' && s[k + 3] == '0' {
                        proof {
                            assert(u[2] == s@[k + 2] && u[3] == s@[k + 3]);
                            assert(u[4] == s@[k + 4] && u[5] == s@[k + 5]);
                        }
                        let h = hex_value(s[k + 4]);
                        let l = hex_value(s[k + 5]);
                        match (h, l) {
                            (Some(hv), Some(lv)) => {
                                if hv >= 8 {
                                    return None;
                                }
                                push_char(&mut acc, ((16 * hv + lv) as u8) as char);
                                proof {
                                    lemma_suf_next(s@, k as int, 6);
                                }
                                k = k + 6;
                            },
                            _ => {
                                return None;
                            },
                        }
                    } else {
                        return None;
                    }
                },
            }
        } else if (c as u32) < 32 {
            return None;
        } else {
            push_char(&mut acc, c);
            proof {
                lemma_suf_next(s@, k as int, 1);
            }
            k = k + 1;
        }
    }
    None
}

fn string_at(s: &Vec<char>, i: usize) -> (r: Option<(String, usize)>)
    requires
        i <= s@.len(),
    ensures
        match r {
            None => string(suf(s@, i as int)) is None,
            Some((v, j)) => j <= s@.len() && string(suf(s@, i as int)) == Some((v@, suf(s@, j as int))),
        },
{
    match tok_at(s, i, "\"") {
        Some(j) => str_body_at(s, j),
        None => None,
    }
}

fn opt_string_at(s: &Vec<char>, i: usize) -> (r: Option<(Option<String>, usize)>)
    requires
        i <= s@.len(),
    ensures
        match r {
            None => opt_string(suf(s@, i as int)) is None,
            Some((v, j)) => j <= s@.len() && opt_string(suf(s@, i as int)) == Some(
                (opt_view(v), suf(s@, j as int)),
            ),
        },
{
    match tok_at(s, i, "null") {
        Some(j) => Some((None, j)),
        None => match string_at(s, i) {
            Some((v, j)) => Some((Some(v), j)),
            None => None,
        },
    }
}

proof fn lemma_digits_acc_grows(s: Seq<char>, acc: nat)
    ensures
        digits_acc(s, acc).0 >= acc,
    decreases s.len(),
{
    if s.len() > 0 && is_digit(s[0]) {
        lemma_digits_acc_grows(s.drop_first(), acc * 10 + (s[0] as u32 - 48) as nat);
    }
}

fn number_at(s: &Vec<char>, i: usize) -> (r: Option<(u16, usize)>)
    requires
        i <= s@.len(),
    ensures
        match r {
            None => number(suf(s@, i as int)) is None,
            Some((v, j)) => j <= s@.len() && number(suf(s@, i as int)) == Some((v, suf(s@, j as int))),
        },
{
    let j = skip_ws_at(s, i);
    if j >= s.len() || !is_digit_char(s[j]) {
        proof {
            if j < s@.len() {
                lemma_suf_next(s@, j as int, 0);
                assert(suf(s@, j as int)[0] == s@[j as int]);
            }
        }
        return None;
    }
    proof {
        assert(suf(s@, j as int)[0] == s@[j as int]);
    }
    if s[j] == '0' && j + 1 < s.len() && is_digit_char(s[j + 1]) {
        proof {
            assert(suf(s@, j as int)[1] == s@[j + 1]);
        }
        return None;
    }
    proof {
        if j + 1 < s@.len() {
            assert(suf(s@, j as int)[1] == s@[j + 1]);
        }
    }
    let mut acc: u32 = 0;
    let mut k = j;
    while k < s.len() && is_digit_char(s[k])
        invariant
            j <= k <= s@.len(),
            i <= j,
            skip_ws(suf(s@, i as int)) == suf(s@, j as int),
            j < s@.len() && is_digit(s@[j as int]),
            acc <= 65535,
            digits_acc(suf(s@, j as int), 0) == digits_acc(suf(s@, k as int), acc as nat),
        decreases s@.len() - k,
    {
        let d = (s[k] as u32) - 48;
        let next = acc * 10 + d;
        proof {
            lemma_suf_next(s@, k as int, 1);
            assert(suf(s@, k as int)[0] == s@[k as int]);
        }
        if next > 65535 {
            proof {
                lemma_digits_acc_grows(suf(s@, k + 1), next as nat);
                assert(suf(s@, k as int).drop_first() == suf(s@, k + 1));
                assert(digits_acc(suf(s@, k as int), acc as nat) == digits_acc(suf(s@, k + 1), next as nat));
                assert(suf(s@, j as int)[0] == s@[j as int]);
            }
            return None;
        }
        proof {
            assert(suf(s@, k as int).drop_first() == suf(s@, k + 1));
            assert(digits_acc(suf(s@, k as int), acc as nat) == digits_acc(suf(s@, k + 1), next as nat));
        }
        acc = next;
        k = k + 1;
    }
    proof {
        if k < s@.len() {
            assert(suf(s@, k as int)[0] == s@[k as int]);
        }
    }
    Some((acc as u16, k))
}

fn opt_number_at(s: &Vec<char>, i: usize) -> (r: Option<(Option<u16>, usize)>)
    requires
        i <= s@.len(),
    ensures
        match r {
            None => opt_number(suf(s@, i as int)) is None,
            Some((v, j)) => j <= s@.len() && opt_number(suf(s@, i as int)) == Some((v, suf(s@, j as int))),
        },
{
    match tok_at(s, i, "null") {
        Some(j) => Some((None, j)),
        None => match number_at(s, i) {
            Some((v, j)) => Some((Some(v), j)),
            None => None,
        },
    }
}

fn sdp_body_at(s: &Vec<char>, i: usize) -> (r: Option<(String, usize)>)
    requires
        i <= s@.len(),
    ensures
        match r {
            None => sdp_body(suf(s@, i as int)) is None,
            Some((v, j)) => j <= s@.len() && sdp_body(suf(s@, i as int)) == Some((v@, suf(s@, j as int))),
        },
{
    let j1 = match tok_at(s, i, "{") {
        Some(j) => j,
        None => return None,
    };
    let j2 = match tok_at(s, j1, "\"sdp\"") {
        Some(j) => j,
        None => return None,
    };
    let j3 = match tok_at(s, j2, ":") {
        Some(j) => j,
        None => return None,
    };
    let (v, j4) = match string_at(s, j3) {
        Some(x) => x,
        None => return None,
    };
    match tok_at(s, j4, "}") {
        Some(j5) => Some((v, j5)),
        None => None,
    }
}

fn next_key_at(s: &Vec<char>, i: usize, key: &str) -> (r: Option<usize>)
    requires
        i <= s@.len(),
    ensures
        match r {
            None => next_key(suf(s@, i as int), key@) is None,
            Some(j) => j <= s@.len() && next_key(suf(s@, i as int), key@) == Some(suf(s@, j as int)),
        },
{
    let j1 = match tok_at(s, i, ",") {
        Some(j) => j,
        None => return None,
    };
    let j2 = match tok_at(s, j1, key) {
        Some(j) => j,
        None => return None,
    };
    tok_at(s, j2, ":")
}

fn ice_head_at(s: &Vec<char>, i: usize) -> (r: Option<(String, usize)>)
    requires
        i <= s@.len(),
    ensures
        match r {
            None => ice_head(suf(s@, i as int)) is None,
            Some((v, j)) => j <= s@.len() && ice_head(suf(s@, i as int)) == Some((v@, suf(s@, j as int))),
        },
{
    let j1 = match tok_at(s, i, "{") {
        Some(j) => j,
        None => return None,
    };
    let j2 = match tok_at(s, j1, "\"candidate\"") {
        Some(j) => j,
        None => return None,
    };
    let j3 = match tok_at(s, j2, ":") {
        Some(j) => j,
        None => return None,
    };
    let j4 = match tok_at(s, j3, "{") {
        Some(j) => j,
        None => return None,
    };
    let j5 = match tok_at(s, j4, "\"candidate\"") {
        Some(j) => j,
        None => return None,
    };
    let j6 = match tok_at(s, j5, ":") {
        Some(j) => j,
        None => return None,
    };
    string_at(s, j6)
}

fn ice_mid_at(s: &Vec<char>, i: usize) -> (r: Option<(Option<String>, usize)>)
    requires
        i <= s@.len(),
    ensures
        match r {
            None => ice_mid(suf(s@, i as int)) is None,
            Some((v, j)) => j <= s@.len() && ice_mid(suf(s@, i as int)) == Some(
                (opt_view(v), suf(s@, j as int)),
            ),
        },
{
    match next_key_at(s, i, "\"sdp_mid\"") {
        Some(j) => opt_string_at(s, j),
        None => None,
    }
}

fn ice_tail_at(s: &Vec<char>, i: usize) -> (r: Option<(Option<u16>, usize)>)
    requires
        i <= s@.len(),
    ensures
        match r {
            None => ice_tail(suf(s@, i as int)) is None,
            Some((v, j)) => j <= s@.len() && ice_tail(suf(s@, i as int)) == Some((v, suf(s@, j as int))),
        },
{
    let j1 = match next_key_at(s, i, "\"sdp_m_line_index\"") {
        Some(j) => j,
        None => return None,
    };
    let (idx, j2) = match opt_number_at(s, j1) {
        Some(x) => x,
        None => return None,
    };
    let j3 = match tok_at(s, j2, "}") {
        Some(j) => j,
        None => return None,
    };
    match tok_at(s, j3, "}") {
        Some(j4) => Some((idx, j4)),
        None => None,
    }
}

fn ice_body_at(s: &Vec<char>, i: usize) -> (r: Option<(SignalMessage, usize)>)
    requires
        i <= s@.len(),
    ensures
        match r {
            None => ice_body(suf(s@, i as int)) is None,
            Some((m, j)) => j <= s@.len() && ice_body(suf(s@, i as int)) == Some(
                (view_of(m), suf(s@, j as int)),
            ),
        },
{
    let (c, j1) = match ice_head_at(s, i) {
        Some(x) => x,
        None => return None,
    };
    let (mid, j2) = match ice_mid_at(s, j1) {
        Some(x) => x,
        None => return None,
    };
    let (idx, j3) = match ice_tail_at(s, j2) {
        Some(x) => x,
        None => return None,
    };
    let candidate = IceCandidate { candidate: c, sdp_mid: mid, sdp_m_line_index: idx };
    Some((SignalMessage::Ice { candidate }, j3))
}

fn tag_at(s: &Vec<char>, i: usize, name: &str) -> (r: Option<usize>)
    requires
        i <= s@.len(),
    ensures
        match r {
            None => tag(suf(s@, i as int), name@) is None,
            Some(j) => j <= s@.len() && tag(suf(s@, i as int), name@) == Some(suf(s@, j as int)),
        },
{
    match tok_at(s, i, name) {
        Some(j) => tok_at(s, j, ":"),
        None => None,
    }
}

fn tag_body_at(s: &Vec<char>, i: usize) -> (r: Option<(SignalMessage, usize)>)
    requires
        i <= s@.len(),
    ensures
        match r {
            None => tag_body(suf(s@, i as int)) is None,
            Some((m, j)) => j <= s@.len() && tag_body(suf(s@, i as int)) == Some(
                (view_of(m), suf(s@, j as int)),
            ),
        },
{
    if let Some(j) = tag_at(s, i, "\"Offer\"") {
        match sdp_body_at(s, j) {
            Some((sdp, k)) => Some((SignalMessage::Offer { sdp }, k)),
            None => None,
        }
    } else if let Some(j) = tag_at(s, i, "\"Answer\"") {
        match sdp_body_at(s, j) {
            Some((sdp, k)) => Some((SignalMessage::Answer { sdp }, k)),
            None => None,
        }
    } else if let Some(j) = tag_at(s, i, "\"Ice\"") {
        ice_body_at(s, j)
    } else if let Some(j) = tag_at(s, i, "\"Error\"") {
        match string_at(s, j) {
            Some((message, k)) => Some((SignalMessage::Error(message), k)),
            None => None,
        }
    } else {
        None
    }
}

/// Decodes one inbound text. Text that is not a message gives `None`.
pub fn decode_signal(text: &str) -> (r: Option<SignalMessage>)
    ensures
        match r {
            None => parse_msg(text@) is None,
            Some(m) => parse_msg(text@) == Some(view_of(m)),
        },
{
    let s = chars_of(text);
    proof {
        assert(suf(s@, 0) =~= text@);
    }
    let j1 = match tok_at(&s, 0, "{") {
        Some(j) => j,
        None => return None,
    };
    let (m, j2) = match tag_body_at(&s, j1) {
        Some(x) => x,
        None => return None,
    };
    let j3 = match tok_at(&s, j2, "}") {
        Some(j) => j,
        None => return None,
    };
    let j4 = skip_ws_at(&s, j3);
    if j4 == s.len() {
        Some(m)
    } else {
        None
    }
}

} // verus!
