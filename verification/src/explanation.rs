use vstd::prelude::*;

use crate::decision::{Decision, DecisionView, DecisiveClause, DecisiveView, DenyShape};
use crate::evaluate::Read;
use crate::facts::Presence;

verus! {

/// Who may receive an explanation. Audit output contains internal fact names.
#[derive(Clone, Copy, Debug, PartialEq, Eq, Structural)]
pub enum ExplanationAudience {
    /// Minimal response, including generic text for hidden denials.
    Public,
    /// Internal inspection of the recorded evaluation, without provider reruns.
    Audit,
}

/// How a consulted presence is shown.
pub open spec fn presence_word(p: Presence) -> Seq<char> {
    match p {
        Presence::Present => "true"@,
        Presence::Absent => "false"@,
        Presence::Unknown => "deferred"@,
    }
}

/// One line per consulted fact, in order.
pub open spec fn consulted_lines(c: Seq<Read>) -> Seq<char>
    decreases c.len(),
{
    if c.len() == 0 {
        Seq::empty()
    } else {
        consulted_lines(c.drop_last()) + "  "@ + c.last().0 + ": "@ + presence_word(c.last().1) + "\n"@
    }
}

/// The label of the decisive clause.
pub open spec fn decisive_label<O>(d: DecisiveView<O>) -> Option<Seq<char>> {
    match d {
        DecisiveView::Permit { label, .. } => label,
        DecisiveView::Deny { label, .. } => label,
    }
}

/// Text of an explanation for an audience.
pub open spec fn explanation<O>(d: DecisionView<O>, audience: ExplanationAudience) -> Seq<char> {
    let verdict = if d.effect is Permit {
        "permitted"@
    } else {
        "denied"@
    };
    if audience == ExplanationAudience::Public {
        if d.decisive matches DecisiveView::Deny { shape: DenyShape::Hidden, .. } {
            "not found"@
        } else {
            verdict
        }
    } else {
        verdict + "\n"@ + consulted_lines(d.consulted) + match decisive_label(d.decisive) {
            Some(l) => "decisive clause: "@ + l + "\n"@,
            None => Seq::empty(),
        } + "Only consulted facts are shown; other checks were not reconstructed."@
    }
}

impl<O> Decision<O> {
    /// Formats the observed decision for an explicitly selected audience.
    ///
    /// Audit explanations reveal stable check names and boolean observations.
    /// They never show the principal, resource or outcome. Unconsulted clauses
    /// are not reconstructed from a trace or reevaluated.
    pub fn explain(&self, audience: ExplanationAudience) -> (s: String)
        ensures
            s@ == explanation(self@, audience),
    {
        let permitted = self.is_permit();
        if audience == ExplanationAudience::Public {
            let hidden = match &self.trace.decisive {
                DecisiveClause::Deny { shape: DenyShape::Hidden, .. } => true,
                _ => false,
            };
            if hidden {
                return String::from_str("not found");
            }
            return if permitted {
                String::from_str("permitted")
            } else {
                String::from_str("denied")
            };
        }
        let mut output = if permitted {
            String::from_str("permitted")
        } else {
            String::from_str("denied")
        };
        output.append("\n");
        let ghost head = output@;
        let ghost c = self.trace.consulted.deep_view();
        let mut i: usize = 0;
        while i < self.trace.consulted.len()
            invariant
                i <= self.trace.consulted@.len(),
                c == self.trace.consulted.deep_view(),
                output@ == head + consulted_lines(c.take(i as int)),
            decreases self.trace.consulted@.len() - i,
        {
            let presence = self.trace.consulted[i].1;
            output.append("  ");
            output.append(self.trace.consulted[i].0.as_str());
            output.append(": ");
            match presence {
                Presence::Present => output.append("true"),
                Presence::Absent => output.append("false"),
                Presence::Unknown => output.append("deferred"),
            }
            output.append("\n");
            proof {
                assert(c.take(i + 1).drop_last() =~= c.take(i as int));
            }
            i = i + 1;
        }
        assert(c.take(c.len() as int) =~= c);
        let label = match &self.trace.decisive {
            DecisiveClause::Permit { label, .. } => label,
            DecisiveClause::Deny { label, .. } => label,
        };
        match label {
            Some(label) => {
                output.append("decisive clause: ");
                output.append(label.as_str());
                output.append("\n");
            },
            None => {},
        }
        output.append("Only consulted facts are shown; other checks were not reconstructed.");
        output
    }
}

} // verus!
