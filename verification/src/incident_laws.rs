//! Laws of incident file names: they are safe, short, and tell like keys apart.

use crate::incident;
use crate::text;
use vstd::prelude::*;
use vstd::utf8::*;

verus! {

/// Hexadecimal digits are letters and digits, as many as asked for.
proof fn lemma_hex(n: nat, width: nat)
    ensures
        text::hex(n, width).len() == width,
        forall|i: int|
            0 <= i < width ==> incident::alphanumeric(#[trigger] text::hex(n, width)[i]),
    decreases width,
{
    if width != 0 {
        let front = text::hex(n / 16, (width - 1) as nat);
        lemma_hex(n / 16, (width - 1) as nat);
        assert forall|i: int| 0 <= i < width implies incident::alphanumeric(
            #[trigger] text::hex(n, width)[i],
        ) by {
            if i < width - 1 {
                assert(text::hex(n, width)[i] == front[i]);
            }
        }
    }
}

/// A slug is a safe file name: letters, digits and hyphens only, and of bounded length.
pub proof fn slug_is_a_safe_file_name(event: Seq<char>)
    ensures
        incident::slug(event).len() <= incident::SHOWN + 17,
        forall|i: int|
            0 <= i < incident::slug(event).len() ==> incident::alphanumeric(
                #[trigger] incident::slug(event)[i],
            ) || incident::slug(event)[i] == '-',
{
    reveal_strlit("-");
    let digits = text::hex(incident::digest(encode_utf8(event)) as nat, 16);
    lemma_hex(incident::digest(encode_utf8(event)) as nat, 16);
    let front = incident::shown(event);
    let n = front.len() as int;
    let whole = incident::slug(event);
    assert forall|i: int| 0 <= i < whole.len() implies incident::alphanumeric(#[trigger] whole[i])
        || whole[i] == '-' by {
        if i < n {
            assert(whole[i] == front[i]);
        } else if i > n {
            assert(whole[i] == digits[i - n - 1]);
        }
    }
}

/// Digits tell numbers apart.
proof fn lemma_hex_injective(a: nat, b: nat, width: nat)
    requires
        text::hex(a, width) == text::hex(b, width),
        a < vstd::arithmetic::power::pow(16, width),
        b < vstd::arithmetic::power::pow(16, width),
    ensures
        a == b,
    decreases width,
{
    reveal(vstd::arithmetic::power::pow);
    if width != 0 {
        let w = (width - 1) as nat;
        let p = vstd::arithmetic::power::pow(16, w);
        let fa = text::hex(a / 16, w);
        let fb = text::hex(b / 16, w);
        assert(text::hex(a, width).drop_last() == fa);
        assert(text::hex(b, width).drop_last() == fb);
        assert(text::hex(a, width).last() == text::digit_char(a % 16));
        assert(text::hex(b, width).last() == text::digit_char(b % 16));
        assert(a / 16 < p) by (nonlinear_arith)
            requires
                a < 16 * p,
        ;
        assert(b / 16 < p) by (nonlinear_arith)
            requires
                b < 16 * p,
        ;
        lemma_hex_injective(a / 16, b / 16, w);
        assert(a % 16 == b % 16);
    }
}

/// Multiplying by the factor of the digest loses nothing.
proof fn lemma_factor_injective(x: u64, y: u64)
    requires
        x.wrapping_mul(incident::DIGEST_FACTOR) == y.wrapping_mul(incident::DIGEST_FACTOR),
    ensures
        x == y,
{
    let size: int = 0x1_0000_0000_0000_0000;
    let factor: int = incident::DIGEST_FACTOR as int;
    let inverse: int = 0xb46d_d957_aff6_957b;
    let k: int = 12398993177650;
    assert(factor * inverse == 1 + k * size);
    let a = x * factor;
    let b = y * factor;
    let qa = a / size;
    let qb = b / size;
    assert(a % size == b % size);
    assert((x - y) * factor == (qa - qb) * size) by (nonlinear_arith)
        requires
            a == x * factor,
            b == y * factor,
            qa == a / size,
            qb == b / size,
            a % size == b % size,
            size == 0x1_0000_0000_0000_0000,
    ;
    let d = x - y;
    let m = (qa - qb) * inverse - k * d;
    assert(d == m * size) by (nonlinear_arith)
        requires
            d * factor == (qa - qb) * size,
            factor * inverse == 1 + k * size,
            m == (qa - qb) * inverse - k * d,
    ;
    assert(d == 0) by (nonlinear_arith)
        requires
            d == m * size,
            -size < d < size,
            size == 0x1_0000_0000_0000_0000,
    ;
}

/// Digests that differ still differ after a byte that both get.
proof fn lemma_step_keeps_apart(a: u64, b: u64, byte: u8)
    requires
        a != b,
    ensures
        incident::digest_step(a, byte) != incident::digest_step(b, byte),
{
    let w = byte as u64;
    assert(a != b ==> a ^ w != b ^ w) by (bit_vector);
    if incident::digest_step(a, byte) == incident::digest_step(b, byte) {
        lemma_factor_injective(a ^ w, b ^ w);
    }
}

/// One digest becomes two where two bytes differ.
proof fn lemma_step_tells_apart(digest: u64, x: u8, y: u8)
    requires
        x != y,
    ensures
        incident::digest_step(digest, x) != incident::digest_step(digest, y),
{
    let v = x as u64;
    let w = y as u64;
    assert(v != w ==> digest ^ v != digest ^ w) by (bit_vector);
    if incident::digest_step(digest, x) == incident::digest_step(digest, y) {
        lemma_factor_injective(digest ^ v, digest ^ w);
    }
}

/// Bytes that differ in one place have different digests.
proof fn lemma_digest_tells_apart(front: Seq<u8>, x: u8, y: u8, back: Seq<u8>)
    requires
        x != y,
    ensures
        incident::digest(front + seq![x] + back) != incident::digest(front + seq![y] + back),
    decreases back.len(),
{
    let a = front + seq![x] + back;
    let b = front + seq![y] + back;
    if back.len() == 0 {
        assert(a.drop_last() == front);
        assert(b.drop_last() == front);
        assert(a.last() == x && b.last() == y);
        lemma_step_tells_apart(incident::digest(front), x, y);
    } else {
        assert(a.drop_last() == front + seq![x] + back.drop_last());
        assert(b.drop_last() == front + seq![y] + back.drop_last());
        assert(a.last() == back.last() && b.last() == back.last());
        lemma_digest_tells_apart(front, x, y, back.drop_last());
        lemma_step_keeps_apart(
            incident::digest(a.drop_last()),
            incident::digest(b.drop_last()),
            back.last(),
        );
    }
}

/// Slugs are equal only where digests are.
proof fn lemma_equal_slugs(a: Seq<char>, b: Seq<char>)
    requires
        incident::slug(a) == incident::slug(b),
    ensures
        incident::digest(encode_utf8(a)) == incident::digest(encode_utf8(b)),
{
    let da = incident::digest(encode_utf8(a)) as nat;
    let db = incident::digest(encode_utf8(b)) as nat;
    lemma_hex(da, 16);
    lemma_hex(db, 16);
    let sa = incident::slug(a);
    let sb = incident::slug(b);
    assert(sa.skip(sa.len() - 16) == text::hex(da, 16));
    assert(sb.skip(sb.len() - 16) == text::hex(db, 16));
    assert(vstd::arithmetic::power::pow(16, 16) == 0x1_0000_0000_0000_0000) by {
        reveal_with_fuel(vstd::arithmetic::power::pow, 17);
    }
    lemma_hex_injective(da, db, 16);
}

/// The encoding of a text with one ASCII character in its middle.
proof fn lemma_encode_around(front: Seq<char>, c: char, back: Seq<char>)
    requires
        c <= '\u{7f}',
    ensures
        encode_utf8(front + seq![c] + back) == encode_utf8(front) + seq![c as u8] + encode_utf8(
            back,
        ),
    decreases front.len(),
{
    let whole = front + seq![c] + back;
    if front.len() == 0 {
        let s = c as u32;
        assert(has_width_1_encoding(s) ==> leading_byte_width_1(s) == s as u8) by (bit_vector);
        assert(whole[0] == c);
        assert(whole.drop_first() == back);
        assert(encode_scalar(s) == seq![c as u8]);
        assert(encode_utf8(front) == Seq::<u8>::empty());
        assert(encode_utf8(whole) == encode_utf8(front) + seq![c as u8] + encode_utf8(back));
    } else {
        assert(whole[0] == front[0]);
        assert(whole.drop_first() == front.drop_first() + seq![c] + back);
        lemma_encode_around(front.drop_first(), c, back);
        let first = encode_scalar(front[0] as u32);
        let rest = encode_utf8(front.drop_first());
        assert(first + (rest + seq![c as u8] + encode_utf8(back)) == (first + rest) + seq![c as u8]
            + encode_utf8(back));
    }
}

/// Keys that differ in one ASCII character never share a file name, though sanitising flattens
/// them onto one: `/` and `-`, `-` and `.`, or any other two.
pub proof fn one_character_tells_slugs_apart(front: Seq<char>, x: char, y: char, back: Seq<char>)
    requires
        x != y,
        x <= '\u{7f}',
        y <= '\u{7f}',
    ensures
        incident::slug(front + seq![x] + back) != incident::slug(front + seq![y] + back),
{
    lemma_encode_around(front, x, back);
    lemma_encode_around(front, y, back);
    lemma_digest_tells_apart(encode_utf8(front), x as u8, y as u8, encode_utf8(back));
    if incident::slug(front + seq![x] + back) == incident::slug(front + seq![y] + back) {
        lemma_equal_slugs(front + seq![x] + back, front + seq![y] + back);
    }
}

/// Two keys share a file name only where their digests collide, and they show the same besides:
/// keys that sanitising alone flattens onto one name are told apart by their digests.
pub proof fn slugs_are_shared_only_where_digests_collide(a: Seq<char>, b: Seq<char>)
    ensures
        incident::slug(a) == incident::slug(b) <==> incident::shown(a) == incident::shown(b)
            && incident::digest(encode_utf8(a)) == incident::digest(encode_utf8(b)),
{
    if incident::slug(a) == incident::slug(b) {
        lemma_equal_slugs(a, b);
        lemma_hex(incident::digest(encode_utf8(a)) as nat, 16);
        let n = incident::shown(a).len() as int;
        let digits = text::hex(incident::digest(encode_utf8(a)) as nat, 16);
        assert(incident::slug(a) == incident::shown(a) + "-"@ + digits);
        assert(incident::slug(b) == incident::shown(b) + "-"@ + digits);
        assert(incident::slug(a).len() == incident::shown(a).len() + "-"@.len() + 16);
        assert(incident::slug(b).len() == incident::shown(b).len() + "-"@.len() + 16);
        assert(incident::slug(a).take(n) == incident::shown(a));
        assert(incident::slug(b).take(n) == incident::shown(b));
    }
}

} // verus!
