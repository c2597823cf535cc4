use vstd::prelude::*;

verus! {

/// Everything the process needs from its environment. All fields are
/// required: the boundary refuses to start with any of them missing or
/// unreadable.
pub struct Config {
    pub jwt_secret: String,
    pub database_url: String,
    pub b2_api_key_id: String,
    pub b2_api_secret: String,
    pub b2_endpoint: String,
    pub b2_public_bucket: String,
    pub b2_region: String,
    pub host: String,
    pub port: u16,
}

/// The byte is an ASCII decimal digit.
pub open spec fn is_digit(b: u8) -> bool {
    48 <= b <= 57
}

/// Every byte of the sequence is an ASCII decimal digit.
pub open spec fn all_digits(s: Seq<u8>) -> bool {
    forall|i: int| 0 <= i < s.len() ==> is_digit(#[trigger] s[i])
}

/// The number the digit sequence denotes in base ten.
pub open spec fn dec_val(s: Seq<u8>) -> int
    decreases s.len(),
{
    if s.len() == 0 {
        0
    } else {
        dec_val(s.drop_last()) * 10 + (s.last() - 48)
    }
}

/// A digit sequence denotes a number no smaller than what any of its
/// prefixes denotes.
proof fn lemma_dec_val_prefix(s: Seq<u8>, i: int)
    requires
        all_digits(s),
        0 <= i <= s.len(),
    ensures
        0 <= dec_val(s.take(i)) <= dec_val(s),
    decreases s.len() - i,
{
    if i == s.len() {
        assert(s.take(i) =~= s);
        lemma_dec_val_nonneg(s);
    } else {
        lemma_dec_val_prefix(s, i + 1);
        assert(s.take(i + 1).drop_last() =~= s.take(i));
        assert(all_digits(s.take(i))) by {
            assert(forall|j: int| 0 <= j < i ==> s.take(i)[j] == s[j]);
        }
        lemma_dec_val_nonneg(s.take(i));
        assert(dec_val(s.take(i + 1)) == dec_val(s.take(i)) * 10 + (s[i] - 48));
    }
}

/// A digit sequence denotes a non-negative number.
proof fn lemma_dec_val_nonneg(s: Seq<u8>)
    requires
        all_digits(s),
    ensures
        dec_val(s) >= 0,
    decreases s.len(),
{
    if s.len() > 0 {
        assert(all_digits(s.drop_last())) by {
            assert(forall|j: int| 0 <= j < s.len() - 1 ==> s.drop_last()[j] == s[j]);
        }
        lemma_dec_val_nonneg(s.drop_last());
        assert(is_digit(s.last()));
    }
}

/// The digit part of a port value: the text with one optional leading
/// plus sign removed, as std's unsigned parsing accepts.
pub open spec fn port_digits(s: Seq<u8>) -> Seq<u8> {
    if s.len() > 0 && s[0] == 43 {
        s.subrange(1, s.len() as int)
    } else {
        s
    }
}

/// Read a TCP port from the decimal bytes of a configuration value:
/// `Some` exactly when the text is an optional plus sign followed by one
/// or more digits denoting a number that fits a port.
pub fn parse_port(s: &[u8]) -> (r: Option<u16>)
    ensures
        r is Some <==> (port_digits(s@).len() > 0 && all_digits(port_digits(s@)) && dec_val(
            port_digits(s@),
        ) <= 65535),
        r matches Some(v) ==> v as int == dec_val(port_digits(s@)),
{
    let start: usize = if s.len() > 0 && s[0] == 43 {
        1
    } else {
        0
    };
    let ghost d = port_digits(s@);
    if s.len() == start {
        return None;
    }
    let mut acc: u32 = 0;
    let mut i: usize = start;
    while i < s.len()
        invariant
            start <= i <= s@.len(),
            start <= 1,
            d == port_digits(s@),
            d.len() + start == s@.len(),
            forall|j: int| 0 <= j < d.len() ==> d[j] == s@[j + start],
            acc <= 65535,
            all_digits(d.take(i - start)),
            acc == dec_val(d.take(i - start)),
        decreases s@.len() - i,
    {
        let b = s[i];
        proof {
            assert(d[i - start] == s@[i as int]);
        }
        if b < 48 || b > 57 {
            proof {
                assert(!is_digit(d[i - start]));
            }
            return None;
        }
        let next: u32 = acc * 10 + (b - 48) as u32;
        proof {
            assert(d.take(i - start + 1).drop_last() =~= d.take(i - start));
            assert(d.take(i - start + 1).last() == d[i - start]);
            assert(all_digits(d.take(i - start + 1))) by {
                assert(forall|j: int|
                    0 <= j < i - start + 1 ==> d.take(i - start + 1)[j] == #[trigger] d[j]);
            }
        }
        if next > 65535 {
            proof {
                if all_digits(d) {
                    lemma_dec_val_prefix(d, i - start + 1);
                }
            }
            return None;
        }
        acc = next;
        i += 1;
    }
    proof {
        assert(d.take(i - start) =~= d);
    }
    Some(acc as u16)
}

} // verus!
