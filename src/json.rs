use vstd::prelude::*;

verus! {

/// The character of a digit below sixteen, lower case past nine.
pub open spec fn hex_digit(d: nat) -> char {
    if d == 0 { '0' }
    else if d == 1 { '1' }
    else if d == 2 { '2' }
    else if d == 3 { '3' }
    else if d == 4 { '4' }
    else if d == 5 { '5' }
    else if d == 6 { '6' }
    else if d == 7 { '7' }
    else if d == 8 { '8' }
    else if d == 9 { '9' }
    else if d == 10 { 'a' }
    else if d == 11 { 'b' }
    else if d == 12 { 'c' }
    else if d == 13 { 'd' }
    else if d == 14 { 'e' }
    else { 'f' }
}

/// Decimal digits of `n`, without sign or leading zeros.
pub open spec fn decimal(n: nat) -> Seq<char>
    decreases n,
{
    if n < 10 {
        seq![hex_digit(n)]
    } else {
        decimal(n / 10) + seq![hex_digit(n % 10)]
    }
}

/// How one character stands inside a JSON string literal: quote, backslash
/// and the characters below U+0020 are escaped, short forms first.
pub open spec fn escape_char(c: char) -> Seq<char> {
    if c == '"' {
        seq!['\\', '"']
    } else if c == '\\' {
        seq!['\\', '\\']
    } else if c == '\x08' {
        seq!['\\', 'b']
    } else if c == '\t' {
        seq!['\\', 't']
    } else if c == '\n' {
        seq!['\\', 'n']
    } else if c == '\x0c' {
        seq!['\\', 'f']
    } else if c == '\r' {
        seq!['\\', 'r']
    } else if (c as u32) < 0x20 {
        seq!['\\', 'u', '0', '0', hex_digit((c as u32 / 16) as nat), hex_digit((c as u32 % 16) as nat)]
    } else {
        seq![c]
    }
}

pub open spec fn escape_text(s: Seq<char>) -> Seq<char>
    decreases s.len(),
{
    if s.len() == 0 {
        Seq::empty()
    } else {
        escape_text(s.drop_last()) + escape_char(s.last())
    }
}

/// `s` as a JSON string literal.
pub open spec fn json_string(s: Seq<char>) -> Seq<char> {
    seq!['"'] + escape_text(s) + seq!['"']
}

/// The decimal values of `b`, separated by commas.
pub open spec fn byte_items(b: Seq<u8>) -> Seq<char>
    decreases b.len(),
{
    if b.len() == 0 {
        Seq::empty()
    } else if b.len() == 1 {
        decimal(b[0] as nat)
    } else {
        byte_items(b.drop_last()) + seq![','] + decimal(b.last() as nat)
    }
}

/// `b` as a JSON array of numbers.
pub open spec fn json_byte_array(b: Seq<u8>) -> Seq<char> {
    seq!['['] + byte_items(b) + seq![']']
}

/// `b` as a JSON literal.
pub open spec fn json_bool(b: bool) -> Seq<char> {
    if b {
        seq!['t', 'r', 'u', 'e']
    } else {
        seq!['f', 'a', 'l', 's', 'e']
    }
}

/// One column as a JSON object.
pub open spec fn column_json(c: (Seq<char>, Seq<char>)) -> Seq<char> {
    "{\"name\":"@ + json_string(c.0) + ",\"col_type\":"@ + json_string(c.1) + "}"@
}

/// The column objects, separated by commas.
pub open spec fn column_items(cols: Seq<(Seq<char>, Seq<char>)>) -> Seq<char>
    decreases cols.len(),
{
    if cols.len() == 0 {
        Seq::empty()
    } else if cols.len() == 1 {
        column_json(cols[0])
    } else {
        column_items(cols.drop_last()) + seq![','] + column_json(cols.last())
    }
}

/// The body of a table-creation request.
pub open spec fn table_json(name: Seq<char>, cols: Seq<(Seq<char>, Seq<char>)>) -> Seq<char> {
    "{\"table\":"@ + json_string(name) + ",\"columns\":["@ + column_items(cols) + "]}"@
}

/// The body of an upload request.
pub open spec fn upload_json(code: Seq<u8>, force_replace: bool) -> Seq<char> {
    "{\"code\":"@ + json_byte_array(code) + ",\"force_replace\":"@ + json_bool(force_replace) + "}"@
}

proof fn lemma_decimal_digits(n: nat)
    ensures
        decimal(n).len() >= 1,
        forall|i: int| 0 <= i < decimal(n).len() ==> #[trigger] decimal(n)[i] != ',' && decimal(n)[i] != ']',
    decreases n,
{
    if n >= 10 {
        lemma_decimal_digits(n / 10);
        let p = decimal(n / 10);
        assert forall|i: int| 0 <= i < decimal(n).len() implies #[trigger] decimal(n)[i] != ',' && decimal(n)[i] != ']' by {
            if i < p.len() {
                assert(decimal(n)[i] == p[i]);
            }
        }
    }
}

proof fn lemma_hex_digit_injective(a: nat, b: nat)
    requires
        a < 16,
        b < 16,
        hex_digit(a) == hex_digit(b),
    ensures
        a == b,
{
}

proof fn lemma_decimal_injective(m: nat, n: nat)
    requires
        decimal(m) == decimal(n),
    ensures
        m == n,
    decreases m,
{
    if m >= 10 && n >= 10 {
        let dm = decimal(m);
        lemma_decimal_digits(m / 10);
        lemma_decimal_digits(n / 10);
        assert(dm.last() == hex_digit(m % 10));
        assert(decimal(n).last() == hex_digit(n % 10));
        assert(dm.drop_last() == decimal(m / 10));
        assert(decimal(n).drop_last() == decimal(n / 10));
        lemma_decimal_injective(m / 10, n / 10);
        lemma_hex_digit_injective(m % 10, n % 10);
        assert(m == 10 * (m / 10) + m % 10);
        assert(n == 10 * (n / 10) + n % 10);
    } else if m < 10 && n < 10 {
        assert(decimal(m)[0] == hex_digit(m));
        assert(decimal(n)[0] == hex_digit(n));
        lemma_hex_digit_injective(m, n);
    } else if m >= 10 {
        lemma_decimal_digits(m / 10);
        assert(decimal(m).len() >= 2);
        assert(decimal(n).len() == 1);
    } else if n >= 10 {
        lemma_decimal_digits(n / 10);
        assert(decimal(n).len() >= 2);
        assert(decimal(m).len() == 1);
    }
}

proof fn lemma_byte_items_len(b: Seq<u8>)
    ensures
        b.len() > 0 ==> byte_items(b).len() > 0,
        forall|i: int| 0 <= i < byte_items(b).len() ==> #[trigger] byte_items(b)[i] != ']',
    decreases b.len(),
{
    if b.len() == 1 {
        lemma_decimal_digits(b[0] as nat);
    } else if b.len() > 1 {
        lemma_decimal_digits(b.last() as nat);
        lemma_byte_items_len(b.drop_last());
        let p = byte_items(b.drop_last());
        let d = decimal(b.last() as nat);
        assert forall|i: int| 0 <= i < byte_items(b).len() implies #[trigger] byte_items(b)[i] != ']' by {
            if i < p.len() {
                assert(byte_items(b)[i] == p[i]);
            } else if i > p.len() {
                assert(byte_items(b)[i] == d[i - p.len() - 1]);
            }
        }
    }
}

/// Where the last comma of a list of decimal values stands.
proof fn lemma_split_at_last_comma(head_a: Seq<char>, last_a: Seq<char>, head_b: Seq<char>, last_b: Seq<char>)
    requires
        head_a + seq![','] + last_a == head_b + seq![','] + last_b,
        forall|i: int| 0 <= i < last_a.len() ==> #[trigger] last_a[i] != ',',
        forall|i: int| 0 <= i < last_b.len() ==> #[trigger] last_b[i] != ',',
    ensures
        head_a == head_b,
        last_a == last_b,
{
    let x = head_a + seq![','] + last_a;
    let y = head_b + seq![','] + last_b;
    if last_a.len() < last_b.len() {
        let k = x.len() - last_a.len() - 1;
        assert(x[k] == ',');
        assert(y[k] == last_b[k - head_b.len() - 1]);
    } else if last_b.len() < last_a.len() {
        let k = y.len() - last_b.len() - 1;
        assert(y[k] == ',');
        assert(x[k] == last_a[k - head_a.len() - 1]);
    }
    assert(head_a =~= x.take(head_a.len() as int));
    assert(head_b =~= y.take(head_b.len() as int));
    assert(last_a =~= x.skip(head_a.len() as int + 1));
    assert(last_b =~= y.skip(head_b.len() as int + 1));
}

proof fn lemma_byte_items_injective(a: Seq<u8>, b: Seq<u8>)
    requires
        byte_items(a) == byte_items(b),
    ensures
        a == b,
    decreases a.len(),
{
    lemma_byte_items_len(a);
    lemma_byte_items_len(b);
    if a.len() == 1 && b.len() == 1 {
        lemma_decimal_injective(a[0] as nat, b[0] as nat);
        assert(a =~= b);
    } else if a.len() == 1 && b.len() > 1 {
        lemma_decimal_digits(a[0] as nat);
        let k = byte_items(b.drop_last()).len() as int;
        assert(byte_items(b)[k] == ',');
        assert(decimal(a[0] as nat)[k] != ',');
    } else if a.len() > 1 && b.len() == 1 {
        lemma_decimal_digits(b[0] as nat);
        let k = byte_items(a.drop_last()).len() as int;
        assert(byte_items(a)[k] == ',');
        assert(decimal(b[0] as nat)[k] != ',');
    } else if a.len() > 1 && b.len() > 1 {
        lemma_decimal_digits(a.last() as nat);
        lemma_decimal_digits(b.last() as nat);
        lemma_split_at_last_comma(
            byte_items(a.drop_last()),
            decimal(a.last() as nat),
            byte_items(b.drop_last()),
            decimal(b.last() as nat),
        );
        lemma_byte_items_injective(a.drop_last(), b.drop_last());
        lemma_decimal_injective(a.last() as nat, b.last() as nat);
        assert(a =~= a.drop_last().push(a.last()));
        assert(b =~= b.drop_last().push(b.last()));
    }
}

proof fn lemma_byte_array_round_trip(a: Seq<u8>, b: Seq<u8>)
    requires
        json_byte_array(a) == json_byte_array(b),
    ensures
        a == b,
{
    let x = json_byte_array(a);
    assert(byte_items(a) =~= x.subrange(1, x.len() - 1));
    assert(byte_items(b) =~= x.subrange(1, x.len() - 1));
    lemma_byte_items_injective(a, b);
}

/// Where an array of bytes ends, whatever text follows it.
proof fn lemma_byte_array_prefix(a: Seq<u8>, ra: Seq<char>, b: Seq<u8>, rb: Seq<char>)
    requires
        json_byte_array(a) + ra == json_byte_array(b) + rb,
    ensures
        a == b,
        ra == rb,
{
    lemma_byte_items_len(a);
    lemma_byte_items_len(b);
    let ia = byte_items(a);
    let ib = byte_items(b);
    let x = json_byte_array(a) + ra;
    if ia.len() < ib.len() {
        assert(x[ia.len() as int + 1] == ']');
        assert(x[ia.len() as int + 1] == ib[ia.len() as int]);
    } else if ib.len() < ia.len() {
        assert(x[ib.len() as int + 1] == ']');
        assert(x[ib.len() as int + 1] == ia[ib.len() as int]);
    }
    let n = ia.len() + 2;
    assert(json_byte_array(a) =~= x.take(n as int));
    assert(json_byte_array(b) =~= x.take(n as int));
    assert(ra =~= x.skip(n as int));
    assert(rb =~= x.skip(n as int));
    lemma_byte_array_round_trip(a, b);
}

/// An upload body gives back exactly what it was made from: equal bodies
/// carry the same bytes and the same flag, so the bytes read are the bytes
/// sent, with nothing cut off or added.
pub proof fn lemma_upload_body_round_trip(a: Seq<u8>, fa: bool, b: Seq<u8>, fb: bool)
    requires
        upload_json(a, fa) == upload_json(b, fb),
    ensures
        a == b,
        fa == fb,
{
    let head = "{\"code\":"@;
    let mid = ",\"force_replace\":"@;
    let tail = "}"@;
    let ra = mid + json_bool(fa) + tail;
    let rb = mid + json_bool(fb) + tail;
    let x = upload_json(a, fa);
    assert(x =~= head + (json_byte_array(a) + ra));
    assert(x =~= head + (json_byte_array(b) + rb));
    assert(json_byte_array(a) + ra =~= x.skip(head.len() as int));
    assert(json_byte_array(b) + rb =~= x.skip(head.len() as int));
    lemma_byte_array_prefix(a, ra, b, rb);
    assert(ra.len() == rb.len());
}

/// The flag of an upload body is always written out, as `true` or `false`,
/// so the two settings give different bodies for the same bytes.
pub proof fn lemma_force_flag_written(code: Seq<u8>)
    ensures
        upload_json(code, true) == "{\"code\":"@ + json_byte_array(code) + ",\"force_replace\":"@ + seq!['t', 'r', 'u', 'e'] + "}"@,
        upload_json(code, false) == "{\"code\":"@ + json_byte_array(code) + ",\"force_replace\":"@ + seq!['f', 'a', 'l', 's', 'e'] + "}"@,
        upload_json(code, true) != upload_json(code, false),
{
    assert(upload_json(code, true).len() + 1 == upload_json(code, false).len());
}

#[verifier::external_type_specification]
#[verifier::external_body]
pub struct ExJsonError(serde_json::Error);

/// Relies on serde_json::to_string for a `str`: a quoted literal in which
/// serde_json's escape table rewrites `"`, `\` and the control characters;
/// the output goes into a `Vec`, whose writes do not fail.
#[verifier::external_body]
pub(crate) fn json_of_str(s: &str) -> (r: Result<String, serde_json::Error>)
    ensures
        r is Ok,
        r->Ok_0@ == json_string(s@),
{
    serde_json::to_string(s)
}

/// Relies on serde_json::to_string for a byte slice: a sequence, written as
/// `[`, the decimal values joined by `,`, and `]`; writes into a `Vec` do not
/// fail.
#[verifier::external_body]
pub(crate) fn json_of_bytes(b: &[u8]) -> (r: Result<String, serde_json::Error>)
    ensures
        r is Ok,
        r->Ok_0@ == json_byte_array(b@),
{
    serde_json::to_string(b)
}

/// Relies on serde_json::to_string for a `bool`: `true` or `false`; writes
/// into a `Vec` do not fail.
#[verifier::external_body]
pub(crate) fn json_of_bool(b: bool) -> (r: Result<String, serde_json::Error>)
    ensures
        r is Ok,
        r->Ok_0@ == json_bool(b),
{
    serde_json::to_string(&b)
}

fn digit_str(d: u16) -> (r: &'static str)
    requires
        d < 10,
    ensures
        r@ == seq![hex_digit(d as nat)],
{
    proof {
        reveal_strlit("0");
        reveal_strlit("1");
        reveal_strlit("2");
        reveal_strlit("3");
        reveal_strlit("4");
        reveal_strlit("5");
        reveal_strlit("6");
        reveal_strlit("7");
        reveal_strlit("8");
        reveal_strlit("9");
    }
    if d == 0 {
        "0"
    } else if d == 1 {
        "1"
    } else if d == 2 {
        "2"
    } else if d == 3 {
        "3"
    } else if d == 4 {
        "4"
    } else if d == 5 {
        "5"
    } else if d == 6 {
        "6"
    } else if d == 7 {
        "7"
    } else if d == 8 {
        "8"
    } else {
        "9"
    }
}

/// The decimal text of a status code.
pub fn status_text(n: u16) -> (r: String)
    ensures
        r@ == decimal(n as nat),
{
    let mut rest: u16 = n / 10;
    let mut s = String::from_str(digit_str(n % 10));
    while rest > 0
        invariant
            rest > 0 ==> decimal(n as nat) == decimal(rest as nat) + s@,
            rest == 0 ==> decimal(n as nat) == s@,
        decreases rest,
    {
        let d = String::from_str(digit_str(rest % 10));
        let ghost old_s = s@;
        s = d.concat(s.as_str());
        proof {
            if rest >= 10 {
                assert(decimal(rest as nat) == decimal((rest / 10) as nat) + seq![hex_digit((rest % 10) as nat)]);
                assert(decimal(n as nat) == decimal((rest / 10) as nat) + s@);
            }
        }
        rest = rest / 10;
    }
    s
}

} // verus!
