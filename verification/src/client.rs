//! The document source's addressing and the text clean-up applied to a
//! fetched document. The network call itself stays outside this crate.

use vstd::prelude::*;

use crate::numfmt::{dec_chars, usize_to_dec};
use crate::text::{trim_both, trim_str};

verus! {

/// The address of document `rfc_number` in plain-text form:
/// `https://www.rfc-editor.org/rfc/rfc<number>.txt`.
pub fn rfc_url(rfc_number: u16) -> (r: String)
    ensures
        r@ == "https://www.rfc-editor.org/rfc/rfc"@ + dec_chars(rfc_number as int) + ".txt"@,
{
    let number = usize_to_dec(rfc_number as usize);
    let r = String::from_str("https://www.rfc-editor.org/rfc/rfc").concat(number.as_str()).concat(
        ".txt",
    );
    proof {
        assert(r@ =~= "https://www.rfc-editor.org/rfc/rfc"@ + dec_chars(rfc_number as int)
            + ".txt"@);
    }
    r
}

/// The address of the document index.
pub fn rfc_index_url() -> (r: &'static str)
    ensures
        r@ == "https://www.rfc-editor.org/rfc-index.txt"@,
{
    "https://www.rfc-editor.org/rfc-index.txt"
}

/// `s` with every form-feed character removed.
pub open spec fn without_form_feeds(s: Seq<char>) -> Seq<char>
    decreases s.len(),
{
    if s.len() == 0 {
        Seq::empty()
    } else {
        without_form_feeds(s.drop_last()) + (if s.last() == '\x0c' {
            Seq::empty()
        } else {
            seq![s.last()]
        })
    }
}

/// Cleans a fetched document text: blanks trimmed at both ends, form
/// feeds removed throughout.
pub fn sanitize_rfc_text(s: &str) -> (r: String)
    ensures
        r@ == without_form_feeds(trim_both(s@)),
{
    let t = trim_str(s);
    let ghost tv = t@;
    let n = t.unicode_len();
    let mut out = String::new();
    let mut i: usize = 0;
    while i < n
        invariant
            0 <= i <= n,
            n == tv.len(),
            tv == t@,
            out@ == without_form_feeds(tv.take(i as int)),
        decreases n - i,
    {
        let c = t.get_char(i);
        if c != '\x0c' {
            out.push(c);
        }
        proof {
            assert(tv.take(i + 1).drop_last() =~= tv.take(i as int));
            assert(tv.take(i + 1).last() == tv[i as int]);
            assert(without_form_feeds(tv.take(i + 1)) =~= without_form_feeds(tv.take(i as int)) + (
            if tv[i as int] == '\x0c' {
                Seq::<char>::empty()
            } else {
                seq![tv[i as int]]
            }));
            assert(out@ =~= without_form_feeds(tv.take(i + 1)));
        }
        i += 1;
    }
    proof {
        assert(tv.take(n as int) =~= tv);
    }
    out
}

} // verus!
