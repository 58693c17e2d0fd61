//! What becomes of the findings after correlation: which of them a run
//! shows, and how a long text is cut to fit a column.

use crate::rules::{views, Finding, FindingModel};
use crate::text::{chars_of, starts_with, string_of};
use vstd::prelude::*;

verus! {

/// The sign that stands for what was cut from a text.
pub const ELLIPSIS: char = '\u{2026}';

/// Whether a finding comes from a rule on gaming: the rule's name opens with
/// `gaming_`.
pub open spec fn is_gaming(f: FindingModel) -> bool {
    "gaming_"@.is_prefix_of(f.rule_name)
}

/// The findings that do not come from rules on gaming, in order.
pub open spec fn without_gaming(s: Seq<FindingModel>) -> Seq<FindingModel> {
    s.filter(|f: FindingModel| !is_gaming(f))
}

/// Removes the findings of rules on gaming, for a run that was not asked
/// about gaming. The others keep their order.
pub fn drop_gaming_findings(findings: &mut Vec<Finding>)
    ensures
        views(final(findings)@) == without_gaming(views(old(findings)@)),
{
    let ghost orig = findings@;
    let ghost mut done: int = 0;
    let word = chars_of("gaming_");
    let mut kept: usize = 0;
    proof {
        reveal(Seq::filter);
        assert(views(findings@.take(0)) =~= without_gaming(views(orig.take(0))));
        assert(findings@.skip(0) =~= orig.skip(0));
    }
    while kept < findings.len()
        invariant
            word@ == "gaming_"@,
            kept <= findings.len(),
            0 <= done <= orig.len(),
            findings.len() - kept == orig.len() - done,
            findings@.skip(kept as int) == orig.skip(done),
            views(findings@.take(kept as int)) == without_gaming(views(orig.take(done))),
        decreases findings.len() - kept,
    {
        let ghost before = findings@;
        let ghost shown = views(before.take(kept as int));
        let ghost grown = views(orig.take(done + 1));
        proof {
            reveal(Seq::filter);
            assert(before.skip(kept as int)[0] == before[kept as int]);
            assert(orig.skip(done).len() == orig.len() - done);
            assert(orig.skip(done)[0] == orig[done]);
            assert(grown.drop_last() =~= views(orig.take(done)));
            assert(grown.last() == orig[done]@);
        }
        let gaming = starts_with(&chars_of(findings[kept].rule_name.as_str()), &word);
        if gaming {
            findings.remove(kept);
            proof {
                assert(findings@.take(kept as int) =~= before.take(kept as int));
                assert(findings@.skip(kept as int) =~= before.skip(kept as int).drop_first());
            }
        } else {
            kept += 1;
            proof {
                assert(views(findings@.take(kept as int)) =~= shown.push(orig[done]@));
                assert(findings@.skip(kept as int) =~= before.skip(kept - 1).drop_first());
            }
        }
        proof {
            assert(orig.skip(done + 1) =~= orig.skip(done).drop_first());
            done = done + 1;
        }
    }
    proof {
        assert(findings@.take(kept as int) =~= findings@);
        assert(orig.take(done) =~= orig);
    }
}

/// The room that a column of width `max` leaves for text before the sign of
/// a cut.
pub open spec fn room(max: nat) -> nat {
    if max == 0 {
        0
    } else {
        (max - 1) as nat
    }
}

/// A text cut to a column: the text itself where it is no longer than the
/// room, else as much of it as the room takes, then the sign of a cut.
pub open spec fn spec_truncate(text: Seq<char>, max: nat) -> Seq<char> {
    if text.len() <= room(max) {
        text
    } else {
        text.take(room(max) as int).push(ELLIPSIS)
    }
}

/// Cuts a text to a column of width `max`, counted in characters.
pub fn truncate(text: &str, max: usize) -> (r: String)
    ensures
        r@ == spec_truncate(text@, max as nat),
{
    let chars = chars_of(text);
    let limit: usize = if max == 0 {
        0
    } else {
        max - 1
    };
    if chars.len() <= limit {
        return string_of(&chars);
    }
    let mut out: Vec<char> = Vec::new();
    let mut i: usize = 0;
    while i < limit
        invariant
            i <= limit < chars.len(),
            out@ == chars@.take(i as int),
        decreases limit - i,
    {
        out.push(chars[i]);
        i += 1;
        proof {
            assert(out@ =~= chars@.take(i as int));
        }
    }
    out.push(ELLIPSIS);
    string_of(&out)
}

} // verus!
