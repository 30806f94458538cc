use vstd::prelude::*;
use vstd::seq_lib::group_to_multiset_ensures;
use vstd::utf8::{encode_utf8, is_ascii_chars};

use crate::clock::{calendar_fields, now, utc_fields, Timestamp};
use crate::text::concat;

verus! {

/// Byte-wise lexicographic order: `a` sorts no later than `b`.
pub open spec fn bytes_le(a: Seq<u8>, b: Seq<u8>) -> bool
    decreases a.len(),
{
    if a.len() == 0 {
        true
    } else if b.len() == 0 {
        false
    } else if a[0] != b[0] {
        a[0] < b[0]
    } else {
        bytes_le(a.drop_first(), b.drop_first())
    }
}

/// The order of names: that of their UTF-8 bytes, as `str` compares.
pub open spec fn name_le(a: String, b: String) -> bool {
    bytes_le(encode_utf8(a@), encode_utf8(b@))
}

/// Each name sorts no later than every name after it.
pub open spec fn ascending(s: Seq<String>) -> bool {
    forall|i: int, j: int| 0 <= i < j < s.len() ==> name_le(s[i], s[j])
}

/// `s` holds the names of `names`, each as often, in ascending order.
pub open spec fn is_ascending_of(s: Seq<String>, names: Seq<String>) -> bool {
    s.to_multiset() == names.to_multiset() && ascending(s)
}

/// How many of `n` snapshots exceed a limit of `max`.
pub open spec fn excess(n: nat, max: nat) -> nat {
    if n > max {
        (n - max) as nat
    } else {
        0
    }
}

/// The decimal digit `d`.
pub open spec fn digit_char(d: int) -> char {
    seq!['0', '1', '2', '3', '4', '5', '6', '7', '8', '9'][d]
}

/// The last `width` decimal digits of `n`, zero-padded.
pub open spec fn decimal(n: nat, width: nat) -> Seq<char>
    decreases width,
{
    if width == 0 {
        Seq::empty()
    } else {
        decimal(n / 10, (width - 1) as nat) + seq![digit_char((n % 10) as int)]
    }
}

/// The name of a snapshot taken at the UTC time with fields `f`:
/// `backup_YYYYMMDD_HHMMSS`.
pub open spec fn backup_name_of(f: (i32, u32, u32, u32, u32, u32)) -> Seq<char> {
    "backup_"@ + decimal(f.0 as nat, 4) + decimal(f.1 as nat, 2) + decimal(f.2 as nat, 2) + "_"@
        + decimal(f.3 as nat, 2) + decimal(f.4 as nat, 2) + decimal(f.5 as nat, 2)
}

/// The byte codes of ASCII characters.
pub open spec fn codes(s: Seq<char>) -> Seq<u8> {
    s.map_values(|c: char| c as u8)
}

proof fn lemma_bytes_le_append(a1: Seq<u8>, a2: Seq<u8>, b1: Seq<u8>, b2: Seq<u8>)
    requires
        a1.len() == b1.len(),
    ensures
        bytes_le(a1 + a2, b1 + b2) == if a1 == b1 {
            bytes_le(a2, b2)
        } else {
            bytes_le(a1, b1)
        },
    decreases a1.len(),
{
    if a1.len() == 0 {
        assert(a1 =~= b1);
        assert(a1 + a2 =~= a2);
        assert(b1 + b2 =~= b2);
    } else {
        assert((a1 + a2).drop_first() =~= a1.drop_first() + a2);
        assert((b1 + b2).drop_first() =~= b1.drop_first() + b2);
        assert((a1 + a2)[0] == a1[0] && (b1 + b2)[0] == b1[0]);
        if a1[0] == b1[0] {
            lemma_bytes_le_append(a1.drop_first(), a2, b1.drop_first(), b2);
            if a1.drop_first() == b1.drop_first() {
                assert(a1 =~= b1) by {
                    assert forall|i: int| 0 <= i < a1.len() implies a1[i] == b1[i] by {
                        if i > 0 {
                            assert(a1[i] == a1.drop_first()[i - 1]);
                            assert(b1[i] == b1.drop_first()[i - 1]);
                        }
                    };
                };
            } else {
                assert(a1 != b1);
            }
        } else {
            assert(a1 != b1);
        }
    }
}

/// Ten to the power `w`.
pub open spec fn ten_pow(w: nat) -> nat
    decreases w,
{
    if w == 0 {
        1
    } else {
        10 * ten_pow((w - 1) as nat)
    }
}

proof fn lemma_digit_code(d: int)
    requires
        0 <= d < 10,
    ensures
        digit_char(d) as u8 == 48 + d,
{
    if d == 0 {} else if d == 1 {} else if d == 2 {} else if d == 3 {} else if d == 4 {}
    else if d == 5 {} else if d == 6 {} else if d == 7 {} else if d == 8 {} else {}
}

proof fn lemma_decimal_codes(n: nat, w: nat)
    ensures
        codes(decimal(n, w)).len() == w,
        w > 0 ==> codes(decimal(n, w)) == codes(decimal(n / 10, (w - 1) as nat)) + seq![
            (48 + n % 10) as u8,
        ],
        is_ascii_chars(decimal(n, w)),
    decreases w,
{
    if w > 0 {
        lemma_decimal_codes(n / 10, (w - 1) as nat);
        lemma_digit_code((n % 10) as int);
        let p = decimal(n / 10, (w - 1) as nat);
        assert(codes(p + seq![digit_char((n % 10) as int)]) =~= codes(p) + seq![(48 + n % 10) as u8]);
        assert forall|i: int| 0 <= i < decimal(n, w).len() implies '\0' <= #[trigger] decimal(n, w)[i]
            <= '\u{7f}' by {
            if i < p.len() {
                assert(decimal(n, w)[i] == p[i]);
            } else {
                assert(decimal(n, w)[i] == digit_char((n % 10) as int));
            }
        };
    } else {
        assert(codes(decimal(n, w)) =~= Seq::<u8>::empty());
    }
}

proof fn lemma_decimal_order(n1: nat, n2: nat, w: nat)
    requires
        n1 < ten_pow(w),
        n2 < ten_pow(w),
    ensures
        (codes(decimal(n1, w)) == codes(decimal(n2, w))) == (n1 == n2),
        bytes_le(codes(decimal(n1, w)), codes(decimal(n2, w))) == (n1 <= n2),
    decreases w,
{
    lemma_decimal_codes(n1, w);
    lemma_decimal_codes(n2, w);
    if w == 0 {
        assert(n1 == 0 && n2 == 0);
    } else {
        let q1 = n1 / 10;
        let q2 = n2 / 10;
        let r1 = n1 % 10;
        let r2 = n2 % 10;
        assert(q1 < ten_pow((w - 1) as nat) && q2 < ten_pow((w - 1) as nat)) by (nonlinear_arith)
            requires
                n1 < 10 * ten_pow((w - 1) as nat),
                n2 < 10 * ten_pow((w - 1) as nat),
                q1 == n1 / 10,
                q2 == n2 / 10,
        ;
        lemma_decimal_order(q1, q2, (w - 1) as nat);
        let p1 = codes(decimal(q1, (w - 1) as nat));
        let p2 = codes(decimal(q2, (w - 1) as nat));
        let l1 = seq![(48 + r1) as u8];
        let l2 = seq![(48 + r2) as u8];
        lemma_bytes_le_append(p1, l1, p2, l2);
        assert(n1 == 10 * q1 + r1 && n2 == 10 * q2 + r2 && r1 < 10 && r2 < 10) by (nonlinear_arith)
            requires
                q1 == n1 / 10,
                q2 == n2 / 10,
                r1 == n1 % 10,
                r2 == n2 % 10,
        ;
        assert(l1.drop_first() =~= Seq::<u8>::empty());
        assert(l2.drop_first() =~= Seq::<u8>::empty());
        assert(bytes_le(l1.drop_first(), l2.drop_first()));
        assert(l1[0] == (48 + r1) as u8 && l2[0] == (48 + r2) as u8);
        assert((((48 + r1) as u8) < ((48 + r2) as u8)) == (r1 < r2));
        assert(bytes_le(l1, l2) == (r1 <= r2));
        if p1 + l1 == p2 + l2 {
            assert((p1 + l1)[w - 1] == (p2 + l2)[w - 1]);
            assert(p1 =~= (p1 + l1).subrange(0, w - 1));
            assert(p2 =~= (p2 + l2).subrange(0, w - 1));
        }
    }
}

proof fn lemma_append_eq(a1: Seq<u8>, a2: Seq<u8>, b1: Seq<u8>, b2: Seq<u8>)
    requires
        a1.len() == b1.len(),
    ensures
        (a1 + a2 == b1 + b2) == (a1 == b1 && a2 == b2),
{
    if a1 + a2 == b1 + b2 {
        assert(a1 =~= (a1 + a2).subrange(0, a1.len() as int));
        assert(b1 =~= (b1 + b2).subrange(0, a1.len() as int));
        assert(a2 =~= (a1 + a2).subrange(a1.len() as int, (a1 + a2).len() as int));
        assert(b2 =~= (b1 + b2).subrange(a1.len() as int, (b1 + b2).len() as int));
    }
}

/// Calendar fields that a snapshot name can hold: a year of at most four digits
/// and the other fields below one hundred.
pub open spec fn fits_name(f: (i32, u32, u32, u32, u32, u32)) -> bool {
    &&& 0 <= f.0 <= 9999
    &&& f.1 < 100
    &&& f.2 < 100
    &&& f.3 < 100
    &&& f.4 < 100
    &&& f.5 < 100
}

/// The order of calendar fields: year first, then month, day, hour, minute and
/// second.
pub open spec fn fields_le(f: (i32, u32, u32, u32, u32, u32), g: (i32, u32, u32, u32, u32, u32)) -> bool {
    if f.0 != g.0 {
        f.0 < g.0
    } else if f.1 != g.1 {
        f.1 < g.1
    } else if f.2 != g.2 {
        f.2 < g.2
    } else if f.3 != g.3 {
        f.3 < g.3
    } else if f.4 != g.4 {
        f.4 < g.4
    } else {
        f.5 <= g.5
    }
}

proof fn lemma_codes_append(a: Seq<char>, b: Seq<char>)
    ensures
        codes(a + b) == codes(a) + codes(b),
{
    assert(codes(a + b) =~= codes(a) + codes(b));
}

/// The byte codes of a snapshot name, piece by piece.
proof fn lemma_name_codes(f: (i32, u32, u32, u32, u32, u32))
    ensures
        encode_utf8(backup_name_of(f)) == codes("backup_"@) + codes(decimal(f.0 as nat, 4)) + codes(
            decimal(f.1 as nat, 2),
        ) + codes(decimal(f.2 as nat, 2)) + codes("_"@) + codes(decimal(f.3 as nat, 2)) + codes(
            decimal(f.4 as nat, 2),
        ) + codes(decimal(f.5 as nat, 2)),
{
    reveal_strlit("backup_");
    reveal_strlit("_");
    let n = backup_name_of(f);
    lemma_decimal_codes(f.0 as nat, 4);
    lemma_decimal_codes(f.1 as nat, 2);
    lemma_decimal_codes(f.2 as nat, 2);
    lemma_decimal_codes(f.3 as nat, 2);
    lemma_decimal_codes(f.4 as nat, 2);
    lemma_decimal_codes(f.5 as nat, 2);
    let parts = seq![
        "backup_"@,
        decimal(f.0 as nat, 4),
        decimal(f.1 as nat, 2),
        decimal(f.2 as nat, 2),
        "_"@,
        decimal(f.3 as nat, 2),
        decimal(f.4 as nat, 2),
        decimal(f.5 as nat, 2),
    ];
    assert(is_ascii_chars("backup_"@));
    assert(is_ascii_chars("_"@));
    assert(is_ascii_chars(n)) by {
        assert forall|i: int| 0 <= i < n.len() implies '\0' <= #[trigger] n[i] <= '\u{7f}' by {
            let a = "backup_"@ + decimal(f.0 as nat, 4);
            let b = a + decimal(f.1 as nat, 2);
            let c = b + decimal(f.2 as nat, 2);
            let d = c + "_"@;
            let e = d + decimal(f.3 as nat, 2);
            let g = e + decimal(f.4 as nat, 2);
            assert(n == g + decimal(f.5 as nat, 2));
            if i >= g.len() {
                assert(n[i] == decimal(f.5 as nat, 2)[i - g.len()]);
            } else if i >= e.len() {
                assert(n[i] == decimal(f.4 as nat, 2)[i - e.len()]);
            } else if i >= d.len() {
                assert(n[i] == decimal(f.3 as nat, 2)[i - d.len()]);
            } else if i >= c.len() {
                assert(n[i] == "_"@[i - c.len()]);
            } else if i >= b.len() {
                assert(n[i] == decimal(f.2 as nat, 2)[i - b.len()]);
            } else if i >= a.len() {
                assert(n[i] == decimal(f.1 as nat, 2)[i - a.len()]);
            } else if i >= 7 {
                assert(n[i] == decimal(f.0 as nat, 4)[i - 7]);
            } else {
                assert(n[i] == "backup_"@[i]);
            }
        };
    };
    vstd::utf8::is_ascii_chars_encode_utf8(n);
    assert(encode_utf8(n) =~= codes(n));
    let a = "backup_"@ + decimal(f.0 as nat, 4);
    let b = a + decimal(f.1 as nat, 2);
    let c = b + decimal(f.2 as nat, 2);
    let d = c + "_"@;
    let e = d + decimal(f.3 as nat, 2);
    let g = e + decimal(f.4 as nat, 2);
    lemma_codes_append("backup_"@, decimal(f.0 as nat, 4));
    lemma_codes_append(a, decimal(f.1 as nat, 2));
    lemma_codes_append(b, decimal(f.2 as nat, 2));
    lemma_codes_append(c, "_"@);
    lemma_codes_append(d, decimal(f.3 as nat, 2));
    lemma_codes_append(e, decimal(f.4 as nat, 2));
    lemma_codes_append(g, decimal(f.5 as nat, 2));
}

/// For calendar fields that fit, snapshot names sort as their times do: the
/// text order of two names is the order of their calendar fields.
pub proof fn lemma_name_order(f: (i32, u32, u32, u32, u32, u32), g: (i32, u32, u32, u32, u32, u32))
    requires
        fits_name(f),
        fits_name(g),
    ensures
        bytes_le(encode_utf8(backup_name_of(f)), encode_utf8(backup_name_of(g))) == fields_le(f, g),
{
    reveal_strlit("_");
    assert(ten_pow(0) == 1);
    assert(ten_pow(1) == 10);
    assert(ten_pow(2) == 100);
    assert(ten_pow(3) == 1000);
    assert(ten_pow(4) == 10000);
    lemma_name_codes(f);
    lemma_name_codes(g);
    lemma_decimal_order(f.0 as nat, g.0 as nat, 4);
    lemma_decimal_order(f.1 as nat, g.1 as nat, 2);
    lemma_decimal_order(f.2 as nat, g.2 as nat, 2);
    lemma_decimal_order(f.3 as nat, g.3 as nat, 2);
    lemma_decimal_order(f.4 as nat, g.4 as nat, 2);
    lemma_decimal_order(f.5 as nat, g.5 as nat, 2);
    lemma_decimal_codes(f.0 as nat, 4);
    lemma_decimal_codes(g.0 as nat, 4);
    lemma_decimal_codes(f.1 as nat, 2);
    lemma_decimal_codes(g.1 as nat, 2);
    lemma_decimal_codes(f.2 as nat, 2);
    lemma_decimal_codes(g.2 as nat, 2);
    lemma_decimal_codes(f.3 as nat, 2);
    lemma_decimal_codes(g.3 as nat, 2);
    lemma_decimal_codes(f.4 as nat, 2);
    lemma_decimal_codes(g.4 as nat, 2);
    let k = codes("backup_"@);
    let u = codes("_"@);
    let fa = k + codes(decimal(f.0 as nat, 4));
    let ga = k + codes(decimal(g.0 as nat, 4));
    let fb = fa + codes(decimal(f.1 as nat, 2));
    let gb = ga + codes(decimal(g.1 as nat, 2));
    let fc = fb + codes(decimal(f.2 as nat, 2));
    let gc = gb + codes(decimal(g.2 as nat, 2));
    let fd = fc + u;
    let gd = gc + u;
    let fe = fd + codes(decimal(f.3 as nat, 2));
    let ge = gd + codes(decimal(g.3 as nat, 2));
    let fg = fe + codes(decimal(f.4 as nat, 2));
    let gg = ge + codes(decimal(g.4 as nat, 2));
    lemma_bytes_le_append(k, codes(decimal(f.0 as nat, 4)), k, codes(decimal(g.0 as nat, 4)));
    lemma_append_eq(k, codes(decimal(f.0 as nat, 4)), k, codes(decimal(g.0 as nat, 4)));
    lemma_bytes_le_append(fa, codes(decimal(f.1 as nat, 2)), ga, codes(decimal(g.1 as nat, 2)));
    lemma_append_eq(fa, codes(decimal(f.1 as nat, 2)), ga, codes(decimal(g.1 as nat, 2)));
    lemma_bytes_le_append(fb, codes(decimal(f.2 as nat, 2)), gb, codes(decimal(g.2 as nat, 2)));
    lemma_append_eq(fb, codes(decimal(f.2 as nat, 2)), gb, codes(decimal(g.2 as nat, 2)));
    lemma_bytes_le_append(fc, u, gc, u);
    lemma_append_eq(fc, u, gc, u);
    lemma_bytes_le_append(fd, codes(decimal(f.3 as nat, 2)), gd, codes(decimal(g.3 as nat, 2)));
    lemma_append_eq(fd, codes(decimal(f.3 as nat, 2)), gd, codes(decimal(g.3 as nat, 2)));
    lemma_bytes_le_append(fe, codes(decimal(f.4 as nat, 2)), ge, codes(decimal(g.4 as nat, 2)));
    lemma_append_eq(fe, codes(decimal(f.4 as nat, 2)), ge, codes(decimal(g.4 as nat, 2)));
    lemma_bytes_le_append(fg, codes(decimal(f.5 as nat, 2)), gg, codes(decimal(g.5 as nat, 2)));
    assert(u.len() == 1);
    assert(u.drop_first() =~= Seq::<u8>::empty());
    assert(bytes_le(u.drop_first(), u.drop_first()));
    assert(bytes_le(u, u));
}

/// The digit `d` as text.
fn digit_text(d: u32) -> (r: &'static str)
    requires
        d < 10,
    ensures
        r@ == seq![digit_char(d as int)],
{
    proof {
        reveal_strlit("0");
        reveal_strlit("1");
        reveal_strlit("2");
        reveal_strlit("3");
        reveal_strlit("4");
        reveal_strlit("5");
        reveal_strlit("6");
        reveal_strlit("7");
        reveal_strlit("8");
        reveal_strlit("9");
    }
    match d {
        0 => "0",
        1 => "1",
        2 => "2",
        3 => "3",
        4 => "4",
        5 => "5",
        6 => "6",
        7 => "7",
        8 => "8",
        _ => "9",
    }
}

/// The last `width` decimal digits of `n`, zero-padded.
fn decimal_text(n: u32, width: u32) -> (r: String)
    ensures
        r@ == decimal(n as nat, width as nat),
{
    let mut r = String::new();
    let mut m = n;
    let mut i: u32 = 0;
    while i < width
        invariant
            i <= width,
            decimal(n as nat, width as nat) == decimal(m as nat, (width - i) as nat) + r@,
        decreases width - i,
    {
        let ghost old_r = r@;
        let d = digit_text(m % 10);
        let ghost rest = decimal((m / 10) as nat, (width - i - 1) as nat);
        assert(decimal(m as nat, (width - i) as nat) == rest + seq![digit_char((m % 10) as int)]);
        r = concat(d, r.as_str());
        assert(rest + seq![digit_char((m % 10) as int)] + old_r =~= rest + r@);
        m = m / 10;
        i = i + 1;
    }
    assert(decimal(m as nat, 0) =~= Seq::<char>::empty());
    assert(decimal(n as nat, width as nat) =~= r@);
    r
}

proof fn lemma_bytes_le_total(a: Seq<u8>, b: Seq<u8>)
    ensures
        bytes_le(a, b) || bytes_le(b, a),
    decreases a.len(),
{
    if a.len() > 0 && b.len() > 0 && a[0] == b[0] {
        lemma_bytes_le_total(a.drop_first(), b.drop_first());
    }
}

proof fn lemma_bytes_le_trans(a: Seq<u8>, b: Seq<u8>, c: Seq<u8>)
    requires
        bytes_le(a, b),
        bytes_le(b, c),
    ensures
        bytes_le(a, c),
    decreases a.len(),
{
    if a.len() > 0 && b.len() > 0 && c.len() > 0 && a[0] == b[0] && b[0] == c[0] {
        lemma_bytes_le_trans(a.drop_first(), b.drop_first(), c.drop_first());
    }
}

/// Whether `a` sorts no later than `b`, byte by byte.
fn bytes_le_exec(a: &[u8], b: &[u8]) -> (r: bool)
    ensures
        r == bytes_le(a@, b@),
{
    let mut i: usize = 0;
    assert(a@.skip(0) =~= a@ && b@.skip(0) =~= b@);
    while i < a.len() && i < b.len() && a[i] == b[i]
        invariant
            i <= a@.len(),
            i <= b@.len(),
            bytes_le(a@, b@) == bytes_le(a@.skip(i as int), b@.skip(i as int)),
        decreases a.len() - i,
    {
        assert(a@.skip(i as int).drop_first() =~= a@.skip(i + 1));
        assert(b@.skip(i as int).drop_first() =~= b@.skip(i + 1));
        i = i + 1;
    }
    if i == a.len() {
        true
    } else if i == b.len() {
        false
    } else {
        a[i] < b[i]
    }
}

/// Whether name `a` sorts no later than name `b`.
fn name_le_exec(a: &String, b: &String) -> (r: bool)
    ensures
        r == name_le(*a, *b),
{
    bytes_le_exec(a.as_str().as_bytes(), b.as_str().as_bytes())
}

/// `a`, `b`, `c` and `d` one after another.
fn join_all(a: &str, b: &str, c: &str, d: &str) -> (r: String)
    ensures
        r@ == a@ + b@ + c@ + d@,
{
    let ab = concat(a, b);
    let abc = concat(ab.as_str(), c);
    concat(abc.as_str(), d)
}

/// `names` in ascending order.
pub fn sort_backup_names(names: Vec<String>) -> (r: Vec<String>)
    ensures
        is_ascending_of(r@, names@),
{
    broadcast use group_to_multiset_ensures;

    let ghost src = names@;
    let mut r: Vec<String> = Vec::new();
    let mut rest = names;
    while rest.len() > 0
        invariant
            rest.len() <= src.len(),
            rest@ == src.subrange(src.len() - rest.len(), src.len() as int),
            r@.to_multiset() == src.subrange(0, src.len() - rest.len()).to_multiset(),
            ascending(r@),
        decreases rest.len(),
    {
        let ghost n = src.len() - rest.len();
        let ghost old_rest = rest@;
        let x = rest.remove(0);
        assert(x == old_rest[0] && old_rest[0] == src[n]);
        let mut k: usize = 0;
        while k < r.len() && name_le_exec(&r[k], &x)
            invariant
                k <= r.len(),
                forall|j: int| 0 <= j < k ==> name_le(#[trigger] r@[j], x),
            decreases r.len() - k,
        {
            k = k + 1;
        }
        let ghost before = r@;
        proof {
            if k < before.len() {
                lemma_bytes_le_total(encode_utf8(before[k as int]@), encode_utf8(x@));
                assert forall|j: int| k <= j < before.len() implies name_le(x, #[trigger] before[j]) by {
                    if j > k {
                        assert(name_le(before[k as int], before[j]));
                        lemma_bytes_le_trans(
                            encode_utf8(x@),
                            encode_utf8(before[k as int]@),
                            encode_utf8(before[j]@),
                        );
                    }
                };
            }
            vstd::seq_lib::to_multiset_insert(before, k as int, x);
        }
        r.insert(k, x);
        assert(src.subrange(0, n + 1) =~= src.subrange(0, n).push(x));
        proof {
            src.subrange(0, n).to_multiset_ensures();
        }
        assert(r@ == before.insert(k as int, x));
        assert(r@.to_multiset() == src.subrange(0, n + 1).to_multiset());
        assert forall|a: int, b: int| 0 <= a < b < r@.len() implies name_le(r@[a], r@[b]) by {
            if b < k {
                assert(r@[a] == before[a] && r@[b] == before[b]);
            } else if a > k {
                assert(r@[a] == before[a - 1] && r@[b] == before[b - 1]);
            } else if a == k {
                assert(r@[b] == before[b - 1]);
            } else {
                assert(r@[a] == before[a]);
                if b > k {
                    assert(r@[b] == before[b - 1]);
                    lemma_bytes_le_trans(
                        encode_utf8(before[a]@),
                        encode_utf8(x@),
                        encode_utf8(before[b - 1]@),
                    );
                }
            }
        };
        assert(rest@ =~= src.subrange(n + 1, src.len() as int));
    }
    assert(src.subrange(0, src.len() as int) =~= src);
    r
}

/// Takes snapshots of a data directory into `<data_dir>/backups/<name>` and keeps
/// at most `max_backups` of them. Names are `backup_YYYYMMDD_HHMMSS`; the order
/// of their text is taken for the order of their times. That holds only while
/// every field keeps its fixed width (years up to 9999): `lemma_name_order`
/// states it, and `backup_name_at` gives no name outside that range.
pub struct BackupManager {
    data_dir: String,
    backup_dir: String,
    max_backups: u32,
}

impl BackupManager {
    /// The directory that is backed up.
    pub closed spec fn data_dir_spec(&self) -> Seq<char> {
        self.data_dir@
    }

    /// The directory that holds the snapshots.
    pub closed spec fn backup_dir_spec(&self) -> Seq<char> {
        self.backup_dir@
    }

    /// How many snapshots are kept.
    pub closed spec fn max_spec(&self) -> nat {
        self.max_backups as nat
    }

    /// A manager of the snapshots of `data_dir`, kept in `<data_dir>/backups`.
    pub fn new(data_dir: &str, max_backups: u32) -> (r: Self)
        ensures
            r.data_dir_spec() == data_dir@,
            r.backup_dir_spec() == data_dir@ + "/backups"@,
            r.max_spec() == max_backups,
    {
        let backup_dir = concat(data_dir, "/backups");
        BackupManager { data_dir: data_dir.to_owned(), backup_dir, max_backups }
    }

    /// The directory that is backed up.
    pub fn data_dir(&self) -> (r: &str)
        ensures
            r@ == self.data_dir_spec(),
    {
        self.data_dir.as_str()
    }

    /// The directory that holds the snapshots.
    pub fn backup_dir(&self) -> (r: &str)
        ensures
            r@ == self.backup_dir_spec(),
    {
        self.backup_dir.as_str()
    }

    /// How many snapshots are kept.
    pub fn max_backups(&self) -> (r: u32)
        ensures
            r == self.max_spec(),
    {
        self.max_backups
    }

    /// The directory of the snapshot called `name`.
    pub fn backup_path(&self, name: &str) -> (r: String)
        ensures
            r@ == self.backup_dir_spec() + "/"@ + name@,
    {
        let dir = concat(self.backup_dir.as_str(), "/");
        let r = concat(dir.as_str(), name);
        proof {
            reveal_strlit("/");
        }
        assert(r@ =~= self.backup_dir_spec() + "/"@ + name@);
        r
    }

    /// The name of a snapshot taken at time `t`; `None` where the time has no
    /// calendar date or its year has more than four digits.
    pub fn backup_name_at(t: Timestamp) -> (r: Option<String>)
        ensures
            match utc_fields(t) {
                Some(f) => if fits_name(f) {
                    r matches Some(name) && name@ == backup_name_of(f)
                } else {
                    r is None
                },
                None => r is None,
            },
    {
        match calendar_fields(t) {
            Some(f) => {
                let (year, month, day, hour, minute, second) = f;
                if year < 0 || year > 9999 {
                    return None;
                }
                let date = join_all(
                    "backup_",
                    decimal_text(year as u32, 4).as_str(),
                    decimal_text(month, 2).as_str(),
                    decimal_text(day, 2).as_str(),
                );
                let time = join_all(
                    "_",
                    decimal_text(hour, 2).as_str(),
                    decimal_text(minute, 2).as_str(),
                    decimal_text(second, 2).as_str(),
                );
                let name = concat(date.as_str(), time.as_str());
                proof {
                    reveal_strlit("backup_");
                    reveal_strlit("_");
                }
                assert(name@ =~= backup_name_of(f));
                Some(name)
            },
            None => None,
        }
    }

    /// The name for a snapshot taken now.
    pub fn new_backup_name(&self) -> (r: Option<String>)
        ensures
            r matches Some(name) ==> exists|t: Timestamp|
                #[trigger] utc_fields(t) matches Some(f) && fits_name(f) && name@ == backup_name_of(
                    f,
                ),
    {
        let t = now();
        BackupManager::backup_name_at(t)
    }

    /// Of the snapshots called `names`, the ones to delete so that at most the
    /// limit remain: the oldest, in ascending order.
    pub fn backups_to_remove(&self, names: Vec<String>) -> (r: Vec<String>)
        ensures
            exists|s: Seq<String>|
                is_ascending_of(s, names@) && r@ == s.take(
                    excess(names@.len(), self.max_spec()) as int,
                ),
    {
        let ghost n = names@.len();
        let mut sorted = sort_backup_names(names);
        let ghost s = sorted@;
        proof {
            broadcast use group_to_multiset_ensures;

            assert(s.to_multiset().len() == s.len());
        }
        let len = sorted.len();
        let max = self.max_backups as usize;
        if len <= max {
            assert(s.take(0) =~= Seq::<String>::empty());
            return Vec::new();
        }
        sorted.truncate(len - max);
        assert(sorted@ =~= s.take(excess(n, self.max_spec()) as int));
        sorted
    }
}

} // verus!
