//! Phone numbers as the reminders are sent to them.

use vstd::prelude::*;
use crate::text::{is_white_space, lemma_trim_piece, trim, trimmed_string};

verus! {

/// Keeps every character but '-'.
pub open spec fn not_dash() -> spec_fn(char) -> bool {
    |c: char| c != '-'
}

/// Keeps every character but ' ', '(' and ')'.
pub open spec fn not_phone_punctuation() -> spec_fn(char) -> bool {
    |c: char| c != ' ' && c != '(' && c != ')'
}

/// The phone number made of an area code and a number: the dashes of the
/// number are dropped (not those of the area code), then every space and
/// parenthesis of the whole, and the result is trimmed of white space.
pub open spec fn formatted_phone(ddd: Seq<char>, numero: Seq<char>) -> Seq<char> {
    trim((ddd + numero.filter(not_dash())).filter(not_phone_punctuation()))
}

/// Appends to `out` the characters of `s` that are kept: no spaces or
/// parentheses, and no dashes where `drop_dashes` holds.
fn push_filtered(out: &mut Vec<char>, s: &str, drop_dashes: bool)
    ensures
        final(out)@ == old(out)@ + (if drop_dashes {
            s@.filter(not_dash()).filter(not_phone_punctuation())
        } else {
            s@.filter(not_phone_punctuation())
        }),
{
    broadcast use vstd::seq_lib::group_seq_lib_default;
    let n = s.unicode_len();
    let mut i: usize = 0;
    while i < n
        invariant
            n == s@.len(),
            i <= n,
            out@ == old(out)@ + (if drop_dashes {
                s@.take(i as int).filter(not_dash()).filter(not_phone_punctuation())
            } else {
                s@.take(i as int).filter(not_phone_punctuation())
            }),
        decreases n - i,
    {
        let c = s.get_char(i);
        let ghost before = s@.take(i as int);
        assert(s@.take(i + 1) =~= before.push(c));
        proof {
            before.lemma_filter_push(c, not_dash());
            before.lemma_filter_push(c, not_phone_punctuation());
            before.filter(not_dash()).lemma_filter_push(c, not_phone_punctuation());
        }
        if (!drop_dashes || c != '-') && c != ' ' && c != '(' && c != ')' {
            out.push(c);
        }
        assert(out@ =~= old(out)@ + (if drop_dashes {
            s@.take(i + 1).filter(not_dash()).filter(not_phone_punctuation())
        } else {
            s@.take(i + 1).filter(not_phone_punctuation())
        }));
        i = i + 1;
    }
    assert(s@.take(n as int) =~= s@);
}

/// The phone number of an area code (`ddd`) and a number (`numero`): the
/// concatenation without the dashes of the number, without spaces and
/// parentheses, trimmed of white space.
pub fn format_phone_number(ddd: String, numero: String) -> (res: String)
    ensures
        res@ == formatted_phone(ddd@, numero@),
{
    broadcast use vstd::seq_lib::group_seq_lib_default;
    let mut kept: Vec<char> = Vec::new();
    push_filtered(&mut kept, ddd.as_str(), false);
    push_filtered(&mut kept, numero.as_str(), true);
    proof {
        Seq::filter_distributes_over_add(ddd@, numero@.filter(not_dash()), not_phone_punctuation());
        assert(kept@ =~= (ddd@ + numero@.filter(not_dash())).filter(not_phone_punctuation()));
    }
    trimmed_string(&kept)
}

/// A formatted phone number holds no space and no parenthesis, and neither
/// starts nor ends with white space.
pub proof fn law_formatted_phone_is_clean(ddd: Seq<char>, numero: Seq<char>)
    ensures
        forall|i: int|
            0 <= i < formatted_phone(ddd, numero).len() ==> {
                let c = #[trigger] formatted_phone(ddd, numero)[i];
                c != ' ' && c != '(' && c != ')'
            },
        formatted_phone(ddd, numero).len() > 0 ==> {
            &&& !is_white_space(formatted_phone(ddd, numero)[0])
            &&& !is_white_space(formatted_phone(ddd, numero).last())
        },
{
    broadcast use vstd::seq_lib::group_seq_lib_default;
    let kept = (ddd + numero.filter(not_dash())).filter(not_phone_punctuation());
    let r = lemma_trim_piece(kept);
    assert forall|i: int| 0 <= i < formatted_phone(ddd, numero).len() implies {
        let c = #[trigger] formatted_phone(ddd, numero)[i];
        c != ' ' && c != '(' && c != ')'
    } by {
        assert(formatted_phone(ddd, numero)[i] == kept[r.0 + i]);
        assert(not_phone_punctuation()(kept[r.0 + i]));
    }
}

} // verus!
