use vstd::prelude::*;
use vstd::string::StringExecFns;
use crate::document::chars::{chars_to_string, str_chars};

verus! {

/// Whether anything is loading, and the message shown while it is.
#[derive(Clone)]
pub struct Loading {
    pub message: Option<String>,
}

/// An error's log line: the human message with blank lines collapsed, and
/// the technical detail appended when there is one.
pub open spec fn spec_collapse_blank(s: Seq<char>) -> Seq<char>
    decreases s.len(),
{
    if s.len() == 0 {
        Seq::<char>::empty()
    } else if s.len() >= 2 && s[0] == '\n' && s[1] == '\n' {
        seq!['\n'] + spec_collapse_blank(s.skip(2))
    } else {
        seq![s[0]] + spec_collapse_blank(s.skip(1))
    }
}

pub open spec fn spec_log_message(human: Seq<char>, actual: Option<Seq<char>>) -> Seq<char> {
    match actual {
        Some(detail) => spec_collapse_blank(human) + "\nActual Error: "@ + detail,
        None => human,
    }
}

/// Collapses every `\n\n` pair to a single newline, left to right.
fn collapse_blank(s: &str) -> (r: String)
    ensures
        r@ == spec_collapse_blank(s@),
{
    let cv = str_chars(s);
    let ghost sv = s@;
    let mut out: Vec<char> = Vec::new();
    let mut i: usize = 0;
    proof {
        assert(sv.skip(0) =~= sv);
    }
    while i < cv.len()
        invariant
            sv == cv@,
            i <= sv.len(),
            spec_collapse_blank(sv) == out@ + spec_collapse_blank(sv.skip(i as int)),
        decreases sv.len() - i,
    {
        let ghost suffix = sv.skip(i as int);
        proof {
            assert(suffix[0] == sv[i as int]);
            if suffix.len() >= 2 {
                assert(suffix[1] == sv[i + 1]);
                assert(suffix.skip(2) =~= sv.skip(i + 2));
            }
            assert(suffix.skip(1) =~= sv.skip(i + 1));
        }
        let ghost out0 = out@;
        if cv[i] == '\n' && i + 1 < cv.len() && cv[i + 1] == '\n' {
            out.push('\n');
            i = i + 2;
            proof {
                assert(out0 + (seq!['\n'] + spec_collapse_blank(sv.skip(i as int))) =~= out@
                    + spec_collapse_blank(sv.skip(i as int)));
            }
        } else {
            out.push(cv[i]);
            i = i + 1;
            proof {
                assert(out0 + (seq![sv[i - 1]] + spec_collapse_blank(sv.skip(i as int))) =~= out@
                    + spec_collapse_blank(sv.skip(i as int)));
            }
        }
    }
    proof {
        assert(spec_collapse_blank(sv.skip(sv.len() as int)) =~= Seq::<char>::empty());
        assert(out@ + Seq::<char>::empty() =~= out@);
    }
    chars_to_string(&out)
}

/// The log line of an error report: exactly the human message when there is
/// no technical detail, else the collapsed message with the detail on its
/// own line.
pub fn log_message(human_message: &str, actual_error: Option<&str>) -> (r: String)
    ensures
        r@ == spec_log_message(
            human_message@,
            match actual_error {
                Some(d) => Some(d@),
                None => None::<Seq<char>>,
            },
        ),
{
    match actual_error {
        Some(detail) => {
            let mut msg = collapse_blank(human_message);
            msg.append("\nActual Error: ");
            msg.append(detail);
            msg
        },
        None => String::from_str(human_message),
    }
}

} // verus!
