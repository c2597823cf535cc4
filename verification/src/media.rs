use vstd::prelude::*;
use vstd::string::StringExecFns;

verus! {

/// How long a pre-signed upload URL stays valid, in seconds.
pub const PRESIGN_VALIDITY_SECS: u32 = 60;

/// A pre-signed upload grant: the URL to upload to and the storage path
/// the media object will live under.
pub struct PreSignedUrlResponse {
    pub url: String,
    pub path: String,
}

/// Relies on uuid::Uuid::new_v4: a randomly generated 128-bit identifier,
/// read out as its integer value.
#[verifier::external_body]
fn fresh_media_id() -> (r: u128) {
    uuid::Uuid::new_v4().as_u128()
}

/// The lowercase hex digit for a value below sixteen.
pub open spec fn hex_digit(d: int) -> char {
    if d == 0 {
        '0'
    } else if d == 1 {
        '1'
    } else if d == 2 {
        '2'
    } else if d == 3 {
        '3'
    } else if d == 4 {
        '4'
    } else if d == 5 {
        '5'
    } else if d == 6 {
        '6'
    } else if d == 7 {
        '7'
    } else if d == 8 {
        '8'
    } else if d == 9 {
        '9'
    } else if d == 10 {
        'a'
    } else if d == 11 {
        'b'
    } else if d == 12 {
        'c'
    } else if d == 13 {
        'd'
    } else if d == 14 {
        'e'
    } else {
        'f'
    }
}

/// The last `len` base-sixteen digits of `v`, most significant first.
pub open spec fn hex_chars(v: u128, len: nat) -> Seq<char>
    decreases len,
{
    if len == 0 {
        Seq::empty()
    } else {
        hex_chars(v / 16, (len - 1) as nat).push(hex_digit((v % 16) as int))
    }
}

/// A rendered digit sequence is as long as asked.
pub proof fn lemma_hex_chars_len(v: u128, len: nat)
    ensures
        hex_chars(v, len).len() == len,
    decreases len,
{
    if len > 0 {
        lemma_hex_chars_len(v / 16, (len - 1) as nat);
    }
}

/// Append one hex digit to the string being built.
fn append_hex_digit(out: &mut String, d: u8)
    requires
        d < 16,
    ensures
        final(out)@ == old(out)@.push(hex_digit(d as int)),
{
    if d == 0 {
        out.append("0");
        proof {
            reveal_strlit("0");
            assert(out@ =~= old(out)@.push('0'));
        }
    } else if d == 1 {
        out.append("1");
        proof {
            reveal_strlit("1");
            assert(out@ =~= old(out)@.push('1'));
        }
    } else if d == 2 {
        out.append("2");
        proof {
            reveal_strlit("2");
            assert(out@ =~= old(out)@.push('2'));
        }
    } else if d == 3 {
        out.append("3");
        proof {
            reveal_strlit("3");
            assert(out@ =~= old(out)@.push('3'));
        }
    } else if d == 4 {
        out.append("4");
        proof {
            reveal_strlit("4");
            assert(out@ =~= old(out)@.push('4'));
        }
    } else if d == 5 {
        out.append("5");
        proof {
            reveal_strlit("5");
            assert(out@ =~= old(out)@.push('5'));
        }
    } else if d == 6 {
        out.append("6");
        proof {
            reveal_strlit("6");
            assert(out@ =~= old(out)@.push('6'));
        }
    } else if d == 7 {
        out.append("7");
        proof {
            reveal_strlit("7");
            assert(out@ =~= old(out)@.push('7'));
        }
    } else if d == 8 {
        out.append("8");
        proof {
            reveal_strlit("8");
            assert(out@ =~= old(out)@.push('8'));
        }
    } else if d == 9 {
        out.append("9");
        proof {
            reveal_strlit("9");
            assert(out@ =~= old(out)@.push('9'));
        }
    } else if d == 10 {
        out.append("a");
        proof {
            reveal_strlit("a");
            assert(out@ =~= old(out)@.push('a'));
        }
    } else if d == 11 {
        out.append("b");
        proof {
            reveal_strlit("b");
            assert(out@ =~= old(out)@.push('b'));
        }
    } else if d == 12 {
        out.append("c");
        proof {
            reveal_strlit("c");
            assert(out@ =~= old(out)@.push('c'));
        }
    } else if d == 13 {
        out.append("d");
        proof {
            reveal_strlit("d");
            assert(out@ =~= old(out)@.push('d'));
        }
    } else if d == 14 {
        out.append("e");
        proof {
            reveal_strlit("e");
            assert(out@ =~= old(out)@.push('e'));
        }
    } else {
        out.append("f");
        proof {
            reveal_strlit("f");
            assert(out@ =~= old(out)@.push('f'));
        }
    }
}

/// Append the last `len` hex digits of `v`, most significant first.
fn push_hex(out: &mut String, v: u128, len: usize)
    ensures
        final(out)@ == old(out)@ + hex_chars(v, len as nat),
    decreases len,
{
    if len == 0 {
        proof {
            assert(old(out)@ + hex_chars(v, 0) =~= old(out)@);
        }
        return ;
    }
    push_hex(out, v / 16, len - 1);
    let d = (v % 16) as u8;
    append_hex_digit(out, d);
    proof {
        assert(out@ =~= old(out)@ + hex_chars(v, len as nat));
    }
}

/// The storage path a media object is uploaded under: `/media/` followed
/// by the thirty-two hex digits of its identifier.
pub fn media_path(id: u128) -> (r: String)
    ensures
        r@ == "/media/"@ + hex_chars(id, 32),
{
    let mut out = String::new();
    out.append("/media/");
    push_hex(&mut out, id, 32);
    proof {
        assert(out@ =~= "/media/"@ + hex_chars(id, 32));
    }
    out
}

/// A fresh upload path under `/media/`, from a random identifier.
pub fn new_media_path() -> (r: String)
    ensures
        exists|id: u128| r@ == "/media/"@ + hex_chars(id, 32),
        r@.len() == "/media/"@.len() + 32,
{
    let id = fresh_media_id();
    let r = media_path(id);
    proof {
        assert(r@ == "/media/"@ + hex_chars(id, 32));
        lemma_hex_chars_len(id, 32);
    }
    r
}

} // verus!
