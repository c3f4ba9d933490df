use vstd::prelude::*;
use crate::text::{decimal, decimal_text};
use crate::utils::{trim_str, trimmed};

verus! {

/// `s` without its leading white space, as `str::trim_start` gives it.
pub uninterp spec fn trimmed_start(s: Seq<char>) -> Seq<char>;

/// `s` without its trailing white space, as `str::trim_end` gives it.
pub uninterp spec fn trimmed_end(s: Seq<char>) -> Seq<char>;

/// Relies on `str::trim_start`: the string without its leading white space,
/// depending on the string alone.
#[verifier::external_body]
fn trim_start_str(s: &str) -> (r: String)
    ensures
        r@ == trimmed_start(s@),
{
    s.trim_start().to_string()
}

/// Relies on `str::trim_end`: the string without its trailing white space,
/// depending on the string alone.
#[verifier::external_body]
fn trim_end_str(s: &str) -> (r: String)
    ensures
        r@ == trimmed_end(s@),
{
    s.trim_end().to_string()
}

/// Trims both sides unless only one side is asked for.
pub open spec fn trim_text(s: Seq<char>, left: bool, right: bool) -> Seq<char> {
    if left == right {
        trimmed(s)
    } else if left {
        trimmed_start(s)
    } else {
        trimmed_end(s)
    }
}

pub open spec fn ends_with_newline(s: Seq<char>) -> bool {
    s.len() > 0 && s.last() == '\n'
}

/// Trims a selection. Where it ended in a newline, the newline is put back
/// unless `no_preserve_newline`. Also returns whether trimming removed
/// anything.
pub fn trim(selection: &str, left: bool, right: bool, no_preserve_newline: bool) -> (r: (String, bool))
    ensures
        r.0@ == trim_text(selection@, left, right) + if !no_preserve_newline && ends_with_newline(
            selection@,
        ) {
            seq!['\n']
        } else {
            Seq::empty()
        },
        r.1 == (trim_text(selection@, left, right).len() != selection@.len()),
{
    let mut t = if left == right {
        trim_str(selection)
    } else if left {
        trim_start_str(selection)
    } else {
        trim_end_str(selection)
    };
    let changed = t.as_str().unicode_len() != selection.unicode_len();
    let n = selection.unicode_len();
    let ends_nl = n > 0 && selection.get_char(n - 1) == '\n';
    if !no_preserve_newline && ends_nl {
        t.append("\n");
        proof {
            reveal_strlit("\n");
        }
    } else {
        proof {
            assert(t@ =~= t@ + Seq::<char>::empty());
        }
    }
    (t, changed)
}

pub open spec fn trim_message_text(total: usize, changed: usize) -> Seq<char> {
    "Trimmed "@ + decimal_text(total as nat) + " selections ("@ + decimal_text(changed as nat)
        + " changed)"@
}

pub fn trim_message(total: usize, changed: usize) -> (r: String)
    ensures
        r@ == trim_message_text(total, changed),
{
    proof {
        reveal_strlit("Trimmed ");
        reveal_strlit(" selections (");
        reveal_strlit(" changed)");
    }
    let mut out = String::from_str("Trimmed ");
    let t = decimal(total);
    out.append(t.as_str());
    out.append(" selections (");
    let c = decimal(changed);
    out.append(c.as_str());
    out.append(" changed)");
    out
}

/// The selections in reverse order.
pub fn rev(selections: &Vec<String>) -> (r: Vec<String>)
    ensures
        r@ == selections@.reverse(),
{
    let n = selections.len();
    let mut out: Vec<String> = Vec::new();
    let mut i: usize = 0;
    while i < n
        invariant
            n == selections.len(),
            i <= n,
            out@.len() == i,
            forall|k: int| 0 <= k < i ==> #[trigger] out@[k] == selections@[n - 1 - k],
        decreases n - i,
    {
        out.push(selections[n - 1 - i].clone());
        i = i + 1;
    }
    proof {
        assert(out@ =~= selections@.reverse());
    }
    out
}

} // verus!
