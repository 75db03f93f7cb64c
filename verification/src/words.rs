//! Facts about the words that a header is made of: which bytes spell them,
//! and which of them are known keys.

use crate::encode::{comment_line, dim_key};
use crate::header::{Key, EQUALS, MAX_DIMS};
use crate::number::{decimal, decimal_denotes, is_digit, ZERO};
use crate::scan::{FORM_FEED, LINE_FEED};
use crate::text::spec_is_space;
use vstd::prelude::*;
use vstd::string::StringSliceAdditionalSpecFns;
use vstd::utf8::{is_ascii_chars, is_ascii_chars_encode_utf8};

verus! {

/// The bytes of a text of characters below 128: one byte for each
/// character, with the character's code.
pub open spec fn ascii(text: Seq<char>) -> Seq<u8> {
    Seq::new(text.len(), |i: int| text[i] as u8)
}

/// Whether no byte of `s` is white space or `=`. Such a text stands for
/// itself as a key and as a value: trimming leaves it as it is, and it does
/// not end a line or part a key from a value.
pub open spec fn plain(s: Seq<u8>) -> bool {
    forall|i: int| 0 <= i < s.len() ==> !spec_is_space(#[trigger] s[i]) && s[i] != EQUALS
}

/// Whether the bytes `bytes` spell the text `text`, one byte for each
/// character, and are plain.
pub open spec fn spells(bytes: Seq<u8>, text: Seq<char>) -> bool {
    &&& bytes == ascii(text)
    &&& plain(bytes)
}

/// A string of characters below 128 is written with one byte for each
/// character.
pub proof fn bytes_are_ascii(text: &str)
    requires
        is_ascii_chars(text@),
    ensures
        text.spec_bytes() == ascii(text@),
{
    is_ascii_chars_encode_utf8(text@);
    assert(text.spec_bytes() =~= ascii(text@));
}

/// The bytes of `ndim`.
proof fn text_ndim()
    ensures
        spells("ndim".spec_bytes(), "ndim"@),
{
    reveal_strlit("ndim");
    bytes_are_ascii("ndim");
}

/// The bytes of `dim`.
proof fn text_dim()
    ensures
        spells("dim".spec_bytes(), "dim"@),
{
    reveal_strlit("dim");
    bytes_are_ascii("dim");
}

/// The bytes of `dim1`.
proof fn text_dim1()
    ensures
        spells("dim1".spec_bytes(), "dim1"@),
{
    reveal_strlit("dim1");
    bytes_are_ascii("dim1");
}

/// The bytes of `dim2`.
proof fn text_dim2()
    ensures
        spells("dim2".spec_bytes(), "dim2"@),
{
    reveal_strlit("dim2");
    bytes_are_ascii("dim2");
}

/// The bytes of `dim3`.
proof fn text_dim3()
    ensures
        spells("dim3".spec_bytes(), "dim3"@),
{
    reveal_strlit("dim3");
    bytes_are_ascii("dim3");
}

/// The bytes of `dim4`.
proof fn text_dim4()
    ensures
        spells("dim4".spec_bytes(), "dim4"@),
{
    reveal_strlit("dim4");
    bytes_are_ascii("dim4");
}

/// The bytes of `dim5`.
proof fn text_dim5()
    ensures
        spells("dim5".spec_bytes(), "dim5"@),
{
    reveal_strlit("dim5");
    bytes_are_ascii("dim5");
}

/// The bytes of `dim6`.
proof fn text_dim6()
    ensures
        spells("dim6".spec_bytes(), "dim6"@),
{
    reveal_strlit("dim6");
    bytes_are_ascii("dim6");
}

/// The bytes of `dim7`.
proof fn text_dim7()
    ensures
        spells("dim7".spec_bytes(), "dim7"@),
{
    reveal_strlit("dim7");
    bytes_are_ascii("dim7");
}

/// The bytes of `data`.
proof fn text_data()
    ensures
        spells("data".spec_bytes(), "data"@),
{
    reveal_strlit("data");
    bytes_are_ascii("data");
}

/// The bytes of `field`.
proof fn text_field()
    ensures
        spells("field".spec_bytes(), "field"@),
{
    reveal_strlit("field");
    bytes_are_ascii("field");
}

/// The bytes of `veclen`.
proof fn text_veclen()
    ensures
        spells("veclen".spec_bytes(), "veclen"@),
{
    reveal_strlit("veclen");
    bytes_are_ascii("veclen");
}

/// The bytes of `nspace`.
proof fn text_nspace()
    ensures
        spells("nspace".spec_bytes(), "nspace"@),
{
    reveal_strlit("nspace");
    bytes_are_ascii("nspace");
}

/// The bytes of `1`.
proof fn text_one()
    ensures
        spells("1".spec_bytes(), "1"@),
{
    reveal_strlit("1");
    bytes_are_ascii("1");
}

/// The bytes of `uniform`.
proof fn text_uniform()
    ensures
        spells("uniform".spec_bytes(), "uniform"@),
{
    reveal_strlit("uniform");
    bytes_are_ascii("uniform");
}

/// The bytes of `float_le`.
proof fn text_float_le()
    ensures
        spells("float_le".spec_bytes(), "float_le"@),
{
    reveal_strlit("float_le");
    bytes_are_ascii("float_le");
}

/// The length of `variable 1 file`.
proof fn text_variable_1_file()
    ensures
        "variable 1 file".spec_bytes().len() == 15,
{
    reveal_strlit("variable 1 file");
    bytes_are_ascii("variable 1 file");
}

/// Whether none of the first `n` bytes of `s` is a line feed, a form feed
/// or `=`.
spec fn free_before(s: Seq<u8>, n: nat) -> bool
    decreases n,
{
    n == 0 || (s[n - 1] != LINE_FEED && s[n - 1] != FORM_FEED && s[n - 1] != EQUALS
        && free_before(s, (n - 1) as nat))
}

/// `free_before` speaks of each of the first `n` bytes.
proof fn free_before_each(s: Seq<u8>, n: nat)
    requires
        free_before(s, n),
    ensures
        forall|i: int|
            0 <= i < n ==> s[i] != LINE_FEED && s[i] != FORM_FEED && s[i] != EQUALS,
    decreases n,
{
    if n > 0 {
        free_before_each(s, (n - 1) as nat);
    }
}

/// The comment that opens a written header is one line: it ends with its
/// only line feed and holds neither a form feed nor `=`.
pub proof fn text_comment()
    ensures
        comment_line().len() > 0,
        comment_line().last() == LINE_FEED,
        forall|i: int|
            0 <= i < comment_line().len() - 1 ==> comment_line()[i] != LINE_FEED
                && comment_line()[i] != FORM_FEED && comment_line()[i] != EQUALS,
{
    reveal_strlit("# AVS FLD file (written by avsfldrs github.com/greyhill/avsfldrs)\n");
    bytes_are_ascii("# AVS FLD file (written by avsfldrs github.com/greyhill/avsfldrs)\n");
    let text = comment_line();
    assert(text.len() == 66);
    assert(free_before(text, 13)) by {
        reveal_with_fuel(free_before, 14);
    }
    assert(free_before(text, 26)) by {
        reveal_with_fuel(free_before, 14);
    }
    assert(free_before(text, 39)) by {
        reveal_with_fuel(free_before, 14);
    }
    assert(free_before(text, 52)) by {
        reveal_with_fuel(free_before, 14);
    }
    assert(free_before(text, 65)) by {
        reveal_with_fuel(free_before, 14);
    }
    free_before_each(text, 65);
}

/// The decimal notation of a number is plain.
pub proof fn decimal_is_plain(n: nat)
    ensures
        plain(decimal(n)),
{
    decimal_denotes(n);
    assert forall|i: int| 0 <= i < decimal(n).len() implies !spec_is_space(
        #[trigger] decimal(n)[i],
    ) && decimal(n)[i] != EQUALS by {
        assert(is_digit(decimal(n)[i]));
    }
}

/// The fixed keys and values that a written header is made of are plain.
pub proof fn fixed_texts_are_plain()
    ensures
        plain("ndim".spec_bytes()),
        plain("veclen".spec_bytes()),
        plain("1".spec_bytes()),
        plain("nspace".spec_bytes()),
        plain("field".spec_bytes()),
        plain("uniform".spec_bytes()),
        plain("data".spec_bytes()),
        plain("float_le".spec_bytes()),
{
    text_ndim();
    text_veclen();
    text_one();
    text_nspace();
    text_field();
    text_uniform();
    text_data();
    text_float_le();
}

/// Of the fixed keys of a written header, `ndim`, `field` and `data` are
/// known and `veclen` and `nspace` are not.
pub proof fn fixed_keys()
    ensures
        Key::spec_from_bytes("ndim".spec_bytes()) == Some(Key::Ndim),
        Key::spec_from_bytes("veclen".spec_bytes()) is None,
        Key::spec_from_bytes("nspace".spec_bytes()) is None,
        Key::spec_from_bytes("field".spec_bytes()) == Some(Key::Field),
        Key::spec_from_bytes("data".spec_bytes()) == Some(Key::Data),
{
    text_ndim();
    text_dim1();
    text_dim2();
    text_dim3();
    text_dim4();
    text_dim5();
    text_dim6();
    text_dim7();
    text_data();
    text_field();
    text_variable_1_file();
    text_veclen();
    text_nspace();
    reveal_strlit("ndim");
    reveal_strlit("dim1");
    reveal_strlit("dim2");
    reveal_strlit("dim3");
    reveal_strlit("dim4");
    reveal_strlit("dim5");
    reveal_strlit("dim6");
    reveal_strlit("dim7");
    reveal_strlit("data");
    reveal_strlit("field");
    reveal_strlit("veclen");
    reveal_strlit("nspace");
    let data = "data".spec_bytes();
    assert(data[1] != "ndim".spec_bytes()[1]);
    assert(data[1] != "dim1".spec_bytes()[1]);
    assert(data[1] != "dim2".spec_bytes()[1]);
    assert(data[1] != "dim3".spec_bytes()[1]);
    assert(data[1] != "dim4".spec_bytes()[1]);
    assert(data[1] != "dim5".spec_bytes()[1]);
    assert(data[1] != "dim6".spec_bytes()[1]);
    assert(data[1] != "dim7".spec_bytes()[1]);
}

/// The key that a written header gives the extent along one of the first
/// seven axes is plain and is the known key of that axis.
pub proof fn dim_key_is_known(axis: nat)
    requires
        1 <= axis <= MAX_DIMS,
    ensures
        plain(dim_key(axis)),
        Key::spec_from_bytes(dim_key(axis)) == Some(Key::Dim((axis - 1) as usize)),
{
    text_dim();
    text_ndim();
    text_dim1();
    text_dim2();
    text_dim3();
    text_dim4();
    text_dim5();
    text_dim6();
    text_dim7();
    reveal_strlit("dim");
    reveal_strlit("ndim");
    reveal_strlit("dim1");
    reveal_strlit("dim2");
    reveal_strlit("dim3");
    reveal_strlit("dim4");
    reveal_strlit("dim5");
    reveal_strlit("dim6");
    reveal_strlit("dim7");
    let key = dim_key(axis);
    assert(decimal(axis) =~= seq![(ZERO + axis) as u8]);
    assert(key.len() == 4);
    assert(key[0] == 'd' as u8 && key[1] == 'i' as u8 && key[2] == 'm' as u8 && key[3] == ZERO
        + axis);
    assert(key[0] != "ndim".spec_bytes()[0]);
    assert(key[3] == "dim1".spec_bytes()[3] <==> axis == 1);
    assert(key[3] == "dim2".spec_bytes()[3] <==> axis == 2);
    assert(key[3] == "dim3".spec_bytes()[3] <==> axis == 3);
    assert(key[3] == "dim4".spec_bytes()[3] <==> axis == 4);
    assert(key[3] == "dim5".spec_bytes()[3] <==> axis == 5);
    assert(key[3] == "dim6".spec_bytes()[3] <==> axis == 6);
    assert(key[3] == "dim7".spec_bytes()[3] <==> axis == 7);
    if axis == 1 {
        assert(key =~= "dim1".spec_bytes());
    } else if axis == 2 {
        assert(key =~= "dim2".spec_bytes());
    } else if axis == 3 {
        assert(key =~= "dim3".spec_bytes());
    } else if axis == 4 {
        assert(key =~= "dim4".spec_bytes());
    } else if axis == 5 {
        assert(key =~= "dim5".spec_bytes());
    } else if axis == 6 {
        assert(key =~= "dim6".spec_bytes());
    } else {
        assert(key =~= "dim7".spec_bytes());
    }
}

} // verus!
