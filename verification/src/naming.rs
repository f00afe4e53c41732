//! Endpoint naming: a fresh 128-bit identifier rendered in the canonical
//! hyphenated form behind the platform namespace prefix.

use vstd::prelude::*;
use vstd::string::StringExecFns;

verus! {

/// Number of bytes in a generated identifier.
pub const ID_BYTES: usize = 16;

/// Number of characters in the hyphenated rendering of an identifier.
pub const ID_TEXT_LEN: usize = 36;

/// Number of characters in the platform namespace prefix.
pub const PREFIX_LEN: usize = 14;

/// Fixed capacity of a rendered endpoint name; every rendered name fills
/// it exactly, so rendering can never overflow it.
pub const NAME_LEN: usize = 50;

/// The filesystem namespace prefix under which endpoints are created.
pub open spec fn prefix_chars() -> Seq<char> {
    "/tmp/aubypipe-"@
}

/// Lower-case hexadecimal digit for a nibble.
pub open spec fn hex_char(n: u8) -> char {
    if n == 0 {
        '0'
    } else if n == 1 {
        '1'
    } else if n == 2 {
        '2'
    } else if n == 3 {
        '3'
    } else if n == 4 {
        '4'
    } else if n == 5 {
        '5'
    } else if n == 6 {
        '6'
    } else if n == 7 {
        '7'
    } else if n == 8 {
        '8'
    } else if n == 9 {
        '9'
    } else if n == 10 {
        'a'
    } else if n == 11 {
        'b'
    } else if n == 12 {
        'c'
    } else if n == 13 {
        'd'
    } else if n == 14 {
        'e'
    } else {
        'f'
    }
}

/// Two lower-case hexadecimal digits for a byte, high nibble first.
pub open spec fn byte_hex(b: u8) -> Seq<char> {
    seq![hex_char(b / 16), hex_char(b % 16)]
}

/// Hexadecimal rendering of a byte sequence.
pub open spec fn bytes_hex(s: Seq<u8>) -> Seq<char>
    decreases s.len(),
{
    if s.len() == 0 {
        Seq::empty()
    } else {
        byte_hex(s[0]) + bytes_hex(s.drop_first())
    }
}

/// Canonical hyphenated rendering of a sixteen-byte identifier: five
/// hexadecimal groups of 8, 4, 4, 4 and 12 digits separated by hyphens.
pub open spec fn hyphenated_chars(b: Seq<u8>) -> Seq<char> {
    bytes_hex(b.subrange(0, 4)) + seq!['-'] + bytes_hex(b.subrange(4, 6)) + seq!['-'] + bytes_hex(
        b.subrange(6, 8),
    ) + seq!['-'] + bytes_hex(b.subrange(8, 10)) + seq!['-'] + bytes_hex(b.subrange(10, 16))
}

/// The full endpoint name for an identifier: the namespace prefix followed
/// by the hyphenated rendering.
pub open spec fn name_chars(b: Seq<u8>) -> Seq<char> {
    prefix_chars() + hyphenated_chars(b)
}

/// A hexadecimal rendering is twice as long as its input.
pub proof fn lemma_bytes_hex_len(s: Seq<u8>)
    ensures
        bytes_hex(s).len() == 2 * s.len(),
    decreases s.len(),
{
    if s.len() > 0 {
        lemma_bytes_hex_len(s.drop_first());
    }
}

/// Rendering one more byte appends its two digits.
proof fn lemma_bytes_hex_push(s: Seq<u8>, x: u8)
    ensures
        bytes_hex(s.push(x)) == bytes_hex(s) + byte_hex(x),
    decreases s.len(),
{
    if s.len() == 0 {
        assert(s.push(x).drop_first() =~= Seq::<u8>::empty());
        assert(s.push(x)[0] == x);
        assert(bytes_hex(s.push(x)) == byte_hex(x) + bytes_hex(Seq::<u8>::empty()));
        assert(bytes_hex(s.push(x)) =~= bytes_hex(s) + byte_hex(x));
    } else {
        lemma_bytes_hex_push(s.drop_first(), x);
        assert(s.push(x).drop_first() =~= s.drop_first().push(x));
        assert(s.push(x)[0] == s[0]);
        assert(bytes_hex(s.push(x)) =~= bytes_hex(s) + byte_hex(x));
    }
}

/// A single lower-case hexadecimal digit as a string slice.
fn hex_digit_str(n: u8) -> (r: &'static str)
    requires
        n < 16,
    ensures
        r@ == seq![hex_char(n)],
{
    let r: &'static str = if n == 0 {
        "0"
    } else if n == 1 {
        "1"
    } else if n == 2 {
        "2"
    } else if n == 3 {
        "3"
    } else if n == 4 {
        "4"
    } else if n == 5 {
        "5"
    } else if n == 6 {
        "6"
    } else if n == 7 {
        "7"
    } else if n == 8 {
        "8"
    } else if n == 9 {
        "9"
    } else if n == 10 {
        "a"
    } else if n == 11 {
        "b"
    } else if n == 12 {
        "c"
    } else if n == 13 {
        "d"
    } else if n == 14 {
        "e"
    } else {
        "f"
    };
    proof {
        reveal_strlit("0");
        reveal_strlit("1");
        reveal_strlit("2");
        reveal_strlit("3");
        reveal_strlit("4");
        reveal_strlit("5");
        reveal_strlit("6");
        reveal_strlit("7");
        reveal_strlit("8");
        reveal_strlit("9");
        reveal_strlit("a");
        reveal_strlit("b");
        reveal_strlit("c");
        reveal_strlit("d");
        reveal_strlit("e");
        reveal_strlit("f");
        assert(r@ =~= seq![hex_char(n)]);
    }
    r
}

/// The two-digit rendering of one byte.
fn hex_byte_str(b: u8) -> (s: String)
    ensures
        s@ == byte_hex(b),
{
    let hi: u8 = b / 16;
    let lo: u8 = b % 16;
    assert(hi < 16 && lo < 16);
    let s = String::from_str(hex_digit_str(hi));
    let s = s.concat(hex_digit_str(lo));
    proof {
        assert(s@ =~= byte_hex(b));
    }
    s
}

/// The hexadecimal rendering of the bytes of `id` between `lo` and `hi`.
fn hex_group(id: &Vec<u8>, lo: usize, hi: usize) -> (s: String)
    requires
        lo <= hi <= id@.len(),
    ensures
        s@ == bytes_hex(id@.subrange(lo as int, hi as int)),
{
    let mut s = String::new();
    let mut i: usize = lo;
    proof {
        assert(s@ =~= bytes_hex(id@.subrange(lo as int, lo as int)));
    }
    while i < hi
        invariant
            lo <= i <= hi <= id@.len(),
            s@ == bytes_hex(id@.subrange(lo as int, i as int)),
        decreases hi - i,
    {
        let piece = hex_byte_str(id[i]);
        proof {
            lemma_bytes_hex_push(id@.subrange(lo as int, i as int), id@[i as int]);
            assert(id@.subrange(lo as int, i + 1 as int) =~= id@.subrange(
                lo as int,
                i as int,
            ).push(id@[i as int]));
        }
        s = s.concat(piece.as_str());
        i = i + 1;
    }
    s
}

/// Distinct nibbles render as distinct digits.
proof fn lemma_hex_char_inj(m: u8, n: u8)
    requires
        m < 16,
        n < 16,
        hex_char(m) == hex_char(n),
    ensures
        m == n,
{
}

/// Distinct bytes render as distinct digit pairs.
proof fn lemma_byte_hex_inj(a: u8, b: u8)
    requires
        byte_hex(a) == byte_hex(b),
    ensures
        a == b,
{
    assert(byte_hex(a)[0] == byte_hex(b)[0]);
    assert(byte_hex(a)[1] == byte_hex(b)[1]);
    lemma_hex_char_inj(a / 16, b / 16);
    lemma_hex_char_inj(a % 16, b % 16);
    assert(a == (a / 16) * 16 + (a % 16)) by (nonlinear_arith);
    assert(b == (b / 16) * 16 + (b % 16)) by (nonlinear_arith);
}

/// Hexadecimal rendering is injective on byte sequences of equal length.
proof fn lemma_bytes_hex_inj(a: Seq<u8>, b: Seq<u8>)
    requires
        a.len() == b.len(),
        bytes_hex(a) == bytes_hex(b),
    ensures
        a == b,
    decreases a.len(),
{
    if a.len() == 0 {
        assert(a =~= b);
    } else {
        assert(bytes_hex(a)[0] == byte_hex(a[0])[0]);
        assert(bytes_hex(a)[1] == byte_hex(a[0])[1]);
        assert(bytes_hex(b)[0] == byte_hex(b[0])[0]);
        assert(bytes_hex(b)[1] == byte_hex(b[0])[1]);
        assert(byte_hex(a[0]) =~= byte_hex(b[0]));
        lemma_byte_hex_inj(a[0], b[0]);
        lemma_bytes_hex_len(a.drop_first());
        lemma_bytes_hex_len(b.drop_first());
        assert forall|i: int|
            0 <= i < bytes_hex(a.drop_first()).len() implies bytes_hex(a.drop_first())[i]
            == bytes_hex(b.drop_first())[i] by {
            assert(bytes_hex(a)[i + 2] == bytes_hex(a.drop_first())[i]);
            assert(bytes_hex(b)[i + 2] == bytes_hex(b.drop_first())[i]);
        }
        assert(bytes_hex(a.drop_first()) =~= bytes_hex(b.drop_first()));
        lemma_bytes_hex_inj(a.drop_first(), b.drop_first());
        assert forall|i: int| 0 <= i < a.len() implies a[i] == b[i] by {
            if i > 0 {
                assert(a[i] == a.drop_first()[i - 1]);
                assert(b[i] == b.drop_first()[i - 1]);
            }
        }
        assert(a =~= b);
    }
}

/// The hyphenated rendering is injective on sixteen-byte identifiers.
proof fn lemma_hyphenated_inj(a: Seq<u8>, b: Seq<u8>)
    requires
        a.len() == 16,
        b.len() == 16,
        hyphenated_chars(a) == hyphenated_chars(b),
    ensures
        a == b,
{
    lemma_bytes_hex_len(a.subrange(0, 4));
    lemma_bytes_hex_len(a.subrange(4, 6));
    lemma_bytes_hex_len(a.subrange(6, 8));
    lemma_bytes_hex_len(a.subrange(8, 10));
    lemma_bytes_hex_len(a.subrange(10, 16));
    lemma_bytes_hex_len(b.subrange(0, 4));
    lemma_bytes_hex_len(b.subrange(4, 6));
    lemma_bytes_hex_len(b.subrange(6, 8));
    lemma_bytes_hex_len(b.subrange(8, 10));
    lemma_bytes_hex_len(b.subrange(10, 16));
    let ha = hyphenated_chars(a);
    let hb = hyphenated_chars(b);
    assert forall|i: int|
        0 <= i < 8 implies bytes_hex(a.subrange(0, 4))[i] == bytes_hex(b.subrange(0, 4))[i] by {
        assert(bytes_hex(a.subrange(0, 4))[i] == ha[i]);
        assert(bytes_hex(b.subrange(0, 4))[i] == hb[i]);
    }
    assert(bytes_hex(a.subrange(0, 4)) =~= bytes_hex(b.subrange(0, 4)));
    lemma_bytes_hex_inj(a.subrange(0, 4), b.subrange(0, 4));
    assert forall|i: int|
        0 <= i < 4 implies bytes_hex(a.subrange(4, 6))[i] == bytes_hex(b.subrange(4, 6))[i] by {
        assert(bytes_hex(a.subrange(4, 6))[i] == ha[9 + i]);
        assert(bytes_hex(b.subrange(4, 6))[i] == hb[9 + i]);
    }
    assert(bytes_hex(a.subrange(4, 6)) =~= bytes_hex(b.subrange(4, 6)));
    lemma_bytes_hex_inj(a.subrange(4, 6), b.subrange(4, 6));
    assert forall|i: int|
        0 <= i < 4 implies bytes_hex(a.subrange(6, 8))[i] == bytes_hex(b.subrange(6, 8))[i] by {
        assert(bytes_hex(a.subrange(6, 8))[i] == ha[14 + i]);
        assert(bytes_hex(b.subrange(6, 8))[i] == hb[14 + i]);
    }
    assert(bytes_hex(a.subrange(6, 8)) =~= bytes_hex(b.subrange(6, 8)));
    lemma_bytes_hex_inj(a.subrange(6, 8), b.subrange(6, 8));
    assert forall|i: int|
        0 <= i < 4 implies bytes_hex(a.subrange(8, 10))[i] == bytes_hex(b.subrange(8, 10))[i] by {
        assert(bytes_hex(a.subrange(8, 10))[i] == ha[19 + i]);
        assert(bytes_hex(b.subrange(8, 10))[i] == hb[19 + i]);
    }
    assert(bytes_hex(a.subrange(8, 10)) =~= bytes_hex(b.subrange(8, 10)));
    lemma_bytes_hex_inj(a.subrange(8, 10), b.subrange(8, 10));
    assert forall|i: int|
        0 <= i < 12 implies bytes_hex(a.subrange(10, 16))[i] == bytes_hex(b.subrange(10, 16))[i] by {
        assert(bytes_hex(a.subrange(10, 16))[i] == ha[24 + i]);
        assert(bytes_hex(b.subrange(10, 16))[i] == hb[24 + i]);
    }
    assert(bytes_hex(a.subrange(10, 16)) =~= bytes_hex(b.subrange(10, 16)));
    lemma_bytes_hex_inj(a.subrange(10, 16), b.subrange(10, 16));
    assert forall|i: int| 0 <= i < 16 implies a[i] == b[i] by {
        if i < 4 {
            assert(a[i] == a.subrange(0, 4)[i]);
            assert(b[i] == b.subrange(0, 4)[i]);
        } else if i < 6 {
            assert(a[i] == a.subrange(4, 6)[i - 4]);
            assert(b[i] == b.subrange(4, 6)[i - 4]);
        } else if i < 8 {
            assert(a[i] == a.subrange(6, 8)[i - 6]);
            assert(b[i] == b.subrange(6, 8)[i - 6]);
        } else if i < 10 {
            assert(a[i] == a.subrange(8, 10)[i - 8]);
            assert(b[i] == b.subrange(8, 10)[i - 8]);
        } else {
            assert(a[i] == a.subrange(10, 16)[i - 10]);
            assert(b[i] == b.subrange(10, 16)[i - 10]);
        }
    }
    assert(a =~= b);
}

/// Rendering full names is injective: two sixteen-byte identifiers with
/// the same rendered name are the same identifier.
pub proof fn lemma_name_injective(a: Seq<u8>, b: Seq<u8>)
    requires
        a.len() == ID_BYTES,
        b.len() == ID_BYTES,
        name_chars(a) == name_chars(b),
    ensures
        a == b,
{
    reveal_strlit("/tmp/aubypipe-");
    lemma_name_len(a);
    lemma_name_len(b);
    assert forall|i: int|
        0 <= i < hyphenated_chars(a).len() implies hyphenated_chars(a)[i] == hyphenated_chars(
            b,
        )[i] by {
        assert(hyphenated_chars(a)[i] == name_chars(a)[14 + i]);
        assert(hyphenated_chars(b)[i] == name_chars(b)[14 + i]);
    }
    assert(hyphenated_chars(a) =~= hyphenated_chars(b));
    lemma_hyphenated_inj(a, b);
}

/// A rendered name is exactly as long as the fixed capacity: the prefix
/// followed by the thirty-six characters of the hyphenated identifier.
pub proof fn lemma_name_len(b: Seq<u8>)
    requires
        b.len() == ID_BYTES,
    ensures
        name_chars(b).len() == NAME_LEN,
{
    reveal_strlit("/tmp/aubypipe-");
    lemma_bytes_hex_len(b.subrange(0, 4));
    lemma_bytes_hex_len(b.subrange(4, 6));
    lemma_bytes_hex_len(b.subrange(6, 8));
    lemma_bytes_hex_len(b.subrange(8, 10));
    lemma_bytes_hex_len(b.subrange(10, 16));
}

/// Renders the full endpoint name for a sixteen-byte identifier.
pub fn render_name(id: &Vec<u8>) -> (s: String)
    requires
        id@.len() == ID_BYTES,
    ensures
        s@ == name_chars(id@),
        s@.len() == NAME_LEN,
{
    let s = String::from_str("/tmp/aubypipe-");
    let s = s.concat(hex_group(id, 0, 4).as_str());
    let s = s.concat("-");
    let s = s.concat(hex_group(id, 4, 6).as_str());
    let s = s.concat("-");
    let s = s.concat(hex_group(id, 6, 8).as_str());
    let s = s.concat("-");
    let s = s.concat(hex_group(id, 8, 10).as_str());
    let s = s.concat("-");
    let s = s.concat(hex_group(id, 10, 16).as_str());
    proof {
        reveal_strlit("-");
        assert("-"@ =~= seq!['-']);
        assert(s@ =~= name_chars(id@));
        lemma_name_len(id@);
    }
    s
}

/// A process-unique endpoint name: a fresh identifier together with its
/// rendered path text.  The text is always exactly the rendering of the
/// identifier, so names coincide exactly when their identifiers do.
pub struct EndpointName {
    id: Vec<u8>,
    text: String,
}

impl EndpointName {
    /// The sixteen identifier bytes behind this name.
    pub closed spec fn id_bytes(&self) -> Seq<u8> {
        self.id@
    }

    /// The rendered path text of this name.
    pub closed spec fn chars(&self) -> Seq<char> {
        self.text@
    }

    /// Well-formedness: the text is the rendering of the identifier.
    pub open spec fn wf(&self) -> bool {
        &&& self.id_bytes().len() == ID_BYTES
        &&& self.chars() == name_chars(self.id_bytes())
    }

    /// The rendered name, for transmission to the peer process.
    pub fn as_str(&self) -> (r: &str)
        ensures
            r@ == self.chars(),
    {
        self.text.as_str()
    }
}

/// Relies on uuid::Uuid::new_v4 for a fresh random 128-bit identifier: it
/// returns sixteen bytes from the operating system's random source, with
/// the version nibble of byte six forced to four and the two variant bits
/// of byte eight forced to one-zero.  Nothing more is assumed of the
/// remaining bits: callers must hold for every outcome.
#[verifier::external_body]
fn fresh_id() -> (id: Vec<u8>)
    ensures
        id@.len() == ID_BYTES,
        id@[6] & 0xf0 == 0x40,
        id@[8] & 0xc0 == 0x80,
{
    uuid::Uuid::new_v4().into_bytes().to_vec()
}

/// Generates a fresh endpoint name: a random identifier rendered behind
/// the platform namespace prefix.  The rendered text always fills the
/// fixed capacity exactly, so generation cannot overflow it and never
/// fails.
pub fn generate() -> (n: EndpointName)
    ensures
        n.wf(),
        n.chars().len() == NAME_LEN,
{
    let id = fresh_id();
    let text = render_name(&id);
    EndpointName { id, text }
}

/// Two well-formed endpoint names have equal text exactly when their
/// identifiers are equal.  Generation draws a fresh random identifier per
/// call, so two names collide only if the random source repeats all
/// sixteen bytes; rendering itself never introduces a collision.
pub proof fn lemma_names_agree_iff_ids_agree(a: &EndpointName, b: &EndpointName)
    requires
        a.wf(),
        b.wf(),
    ensures
        a.chars() == b.chars() <==> a.id_bytes() == b.id_bytes(),
{
    if a.chars() == b.chars() {
        lemma_name_injective(a.id_bytes(), b.id_bytes());
    }
}

/// Every well-formed endpoint name fills the fixed capacity exactly: the
/// prefix length plus the hyphenated identifier length, with no room for
/// truncation or overflow.
pub proof fn lemma_name_fills_capacity(n: &EndpointName)
    requires
        n.wf(),
    ensures
        n.chars().len() == NAME_LEN,
        NAME_LEN == PREFIX_LEN + ID_TEXT_LEN,
{
    lemma_name_len(n.id_bytes());
}

} // verus!

