//! The summary line of an import's preflight diagnostics.
use vstd::prelude::*;
use crate::ids;
use crate::text;
use crate::validation::opt;

verus! {

/// How serious a diagnostic is.
#[derive(Clone, Copy, Debug, PartialEq, Eq, Structural)]
pub enum ImportDiagnosticSeverity {
    Error,
    WarningRequiresAck,
    Warning,
    Info,
    Unknown,
}

/// One diagnostic of a preflight report: its code, severity, how many items
/// it affects, and whether it blocks the commit or needs acknowledgement.
#[derive(Debug)]
pub struct ImportDiagnosticSummary {
    pub code: String,
    pub severity: ImportDiagnosticSeverity,
    pub count: u64,
    pub blocks_commit: bool,
    pub requires_acknowledgement: bool,
}

/// The colour family a diagnostics summary is shown in.
#[derive(Clone, Copy, Debug, PartialEq, Eq, Structural)]
pub enum DiagnosticTone {
    Danger,
    Warning,
    Info,
    Success,
}

/// Totals over a list of diagnostics.
#[derive(Clone, Copy, Debug, PartialEq, Eq, Structural)]
pub struct ImportDiagnosticOverview {
    pub errors: usize,
    pub warnings: usize,
    pub information: usize,
    pub affected: u64,
    pub blocking: usize,
    pub unacknowledged: usize,
}

/// `a + b`, or `u64::MAX` when that does not fit.
pub open spec fn saturating_sum(a: u64, b: u64) -> u64 {
    if a + b > u64::MAX {
        u64::MAX
    } else {
        (a + b) as u64
    }
}

/// The totals over the first `n` diagnostics; a diagnostic that needs
/// acknowledgement counts as unacknowledged unless its code is among
/// `acknowledged`.
pub open spec fn overview_of(
    diagnostics: Seq<ImportDiagnosticSummary>,
    acknowledged: Seq<Seq<char>>,
    n: nat,
) -> ImportDiagnosticOverview
    decreases n,
{
    if n == 0 {
        ImportDiagnosticOverview { errors: 0, warnings: 0, information: 0, affected: 0, blocking: 0, unacknowledged: 0 }
    } else {
        let o = overview_of(diagnostics, acknowledged, (n - 1) as nat);
        let d = diagnostics[n - 1];
        ImportDiagnosticOverview {
            errors: if d.severity == ImportDiagnosticSeverity::Error { (o.errors + 1) as usize } else { o.errors },
            warnings: if d.severity == ImportDiagnosticSeverity::WarningRequiresAck || d.severity
                == ImportDiagnosticSeverity::Warning {
                (o.warnings + 1) as usize
            } else {
                o.warnings
            },
            information: if d.severity == ImportDiagnosticSeverity::Info || d.severity
                == ImportDiagnosticSeverity::Unknown {
                (o.information + 1) as usize
            } else {
                o.information
            },
            affected: saturating_sum(o.affected, d.count),
            blocking: if d.blocks_commit { (o.blocking + 1) as usize } else { o.blocking },
            unacknowledged: if d.requires_acknowledgement && !acknowledged.contains(d.code@) {
                (o.unacknowledged + 1) as usize
            } else {
                o.unacknowledged
            },
        }
    }
}

/// `count` followed by `singular`, with an `s` unless the count is one.
pub open spec fn counted_text(count: nat, singular: Seq<char>) -> Seq<char> {
    text::decimal(count) + " "@ + singular + if count == 1 {
        ""@
    } else {
        "s"@
    }
}

/// `parts` separated by `sep`.
pub open spec fn join(parts: Seq<Seq<char>>, sep: Seq<char>) -> Seq<char>
    decreases parts.len(),
{
    if parts.len() == 0 {
        Seq::empty()
    } else if parts.len() == 1 {
        parts[0]
    } else {
        join(parts.drop_last(), sep) + sep + parts.last()
    }
}

/// The per-severity counts that are not zero.
pub open spec fn severity_parts(o: ImportDiagnosticOverview) -> Seq<Seq<char>> {
    opt(o.errors > 0, counted_text(o.errors as nat, "error"@)) + opt(
        o.warnings > 0,
        counted_text(o.warnings as nat, "warning"@),
    ) + opt(o.information > 0, text::decimal(o.information as nat) + " info"@)
}

/// The summary line of the diagnostics disclosure, compact or detailed.
pub open spec fn disclosure_text(o: ImportDiagnosticOverview, compact: bool) -> Seq<char> {
    let severities = severity_parts(o);
    if severities.len() == 0 {
        "Diagnostics (none)"@
    } else if compact {
        "Diagnostics ("@ + join(severities, ", "@) + ")"@ + if o.blocking > 0 {
            " · commit blocked"@
        } else if o.unacknowledged > 0 {
            " · action required"@
        } else {
            ""@
        }
    } else {
        "Diagnostics — "@ + join(
            seq![join(severities, ", "@)] + opt(o.affected > 0, text::decimal(o.affected as nat) + " affected"@)
                + opt(o.blocking > 0, counted_text(o.blocking as nat, "blocking diagnostic"@)) + opt(
                o.unacknowledged > 0,
                text::decimal(o.unacknowledged as nat) + " acknowledgement"@ + (if o.unacknowledged == 1 {
                    ""@
                } else {
                    "s"@
                }) + " required"@,
            ),
            " · "@,
        )
    }
}

/// `count` followed by `singular`, with an `s` unless the count is one.
pub fn counted(count: usize, singular: &str) -> (r: String)
    ensures
        r@ == counted_text(count as nat, singular@),
{
    let mut r = String::new();
    text::push_decimal(&mut r, count as u64);
    text::push_str(&mut r, " ");
    text::push_str(&mut r, singular);
    if count == 1 {
        text::push_str(&mut r, "");
    } else {
        text::push_str(&mut r, "s");
    }
    r
}

/// `parts` separated by `sep`.
pub fn join_strings(parts: &Vec<String>, sep: &str) -> (r: String)
    ensures
        r@ == join(ids::views(parts@), sep@),
{
    let mut r = String::new();
    let mut i: usize = 0;
    while i < parts.len()
        invariant
            i <= parts@.len(),
            r@ == join(ids::views(parts@).subrange(0, i as int), sep@),
        decreases parts.len() - i,
    {
        let ghost pre = ids::views(parts@).subrange(0, i as int);
        let ghost next = ids::views(parts@).subrange(0, i + 1);
        assert(next.drop_last() =~= pre);
        if i > 0 {
            text::push_str(&mut r, sep);
        }
        text::push_str(&mut r, parts[i].as_str());
        assert(r@ =~= join(next, sep@)) by {
            if i == 0 {
                assert(next.len() == 1);
            }
        }
        i += 1;
    }
    assert(ids::views(parts@).subrange(0, parts@.len() as int) =~= ids::views(parts@));
    r
}

impl ImportDiagnosticOverview {
    /// The totals over `diagnostics`, with the codes in `acknowledged`
    /// counted as acknowledged.
    pub fn from_diagnostics(diagnostics: &Vec<ImportDiagnosticSummary>, acknowledged: &Vec<String>) -> (o: Self)
        ensures
            o == overview_of(diagnostics@, ids::views(acknowledged@), diagnostics@.len()),
    {
        let mut o = ImportDiagnosticOverview {
            errors: 0,
            warnings: 0,
            information: 0,
            affected: 0,
            blocking: 0,
            unacknowledged: 0,
        };
        let mut i: usize = 0;
        while i < diagnostics.len()
            invariant
                i <= diagnostics@.len(),
                o == overview_of(diagnostics@, ids::views(acknowledged@), i as nat),
                o.errors <= i,
                o.warnings <= i,
                o.information <= i,
                o.blocking <= i,
                o.unacknowledged <= i,
            decreases diagnostics.len() - i,
        {
            let d = &diagnostics[i];
            match d.severity {
                ImportDiagnosticSeverity::Error => o.errors = o.errors + 1,
                ImportDiagnosticSeverity::WarningRequiresAck | ImportDiagnosticSeverity::Warning => o.warnings = o.warnings + 1,
                ImportDiagnosticSeverity::Info | ImportDiagnosticSeverity::Unknown => o.information = o.information + 1,
            }
            o.affected = o.affected.saturating_add(d.count);
            if d.blocks_commit {
                o.blocking = o.blocking + 1;
            }
            if d.requires_acknowledgement && !ids::contains_string(acknowledged, d.code.as_str()) {
                o.unacknowledged = o.unacknowledged + 1;
            }
            i += 1;
        }
        o
    }

    /// The colour family: danger for errors or blocking diagnostics, then
    /// warning, then information, else success.
    pub fn tone(&self) -> (t: DiagnosticTone)
        ensures
            t == if self.errors > 0 || self.blocking > 0 {
                DiagnosticTone::Danger
            } else if self.warnings > 0 || self.unacknowledged > 0 {
                DiagnosticTone::Warning
            } else if self.information > 0 {
                DiagnosticTone::Info
            } else {
                DiagnosticTone::Success
            },
    {
        if self.errors > 0 || self.blocking > 0 {
            DiagnosticTone::Danger
        } else if self.warnings > 0 || self.unacknowledged > 0 {
            DiagnosticTone::Warning
        } else if self.information > 0 {
            DiagnosticTone::Info
        } else {
            DiagnosticTone::Success
        }
    }

    /// The summary line of the diagnostics disclosure.
    pub fn disclosure_label(&self, compact: bool) -> (r: String)
        ensures
            r@ == disclosure_text(*self, compact),
    {
        let mut severities: Vec<String> = Vec::new();
        if self.errors > 0 {
            severities.push(counted(self.errors, "error"));
        }
        if self.warnings > 0 {
            severities.push(counted(self.warnings, "warning"));
        }
        if self.information > 0 {
            let mut s = text::with_number("", self.information as u64);
            text::push_str(&mut s, " info");
            severities.push(s);
        }
        proof {
            reveal_strlit("");
            assert(ids::views(severities@) =~= severity_parts(*self));
        }
        if severities.len() == 0 {
            return text::to_string("Diagnostics (none)");
        }
        let joined = join_strings(&severities, ", ");
        if compact {
            let action = if self.blocking > 0 {
                " · commit blocked"
            } else if self.unacknowledged > 0 {
                " · action required"
            } else {
                ""
            };
            let r = text::concat4("Diagnostics (", joined.as_str(), ")", action);
            r
        } else {
            let mut parts: Vec<String> = Vec::new();
            parts.push(joined);
            if self.affected > 0 {
                let mut s = text::with_number("", self.affected);
                text::push_str(&mut s, " affected");
                parts.push(s);
            }
            if self.blocking > 0 {
                parts.push(counted(self.blocking, "blocking diagnostic"));
            }
            if self.unacknowledged > 0 {
                let mut s = text::with_number("", self.unacknowledged as u64);
                text::push_str(&mut s, " acknowledgement");
                if self.unacknowledged == 1 {
                    text::push_str(&mut s, "");
                } else {
                    text::push_str(&mut s, "s");
                }
                text::push_str(&mut s, " required");
                parts.push(s);
            }
            proof {
                reveal_strlit("");
                let expected = seq![join(severity_parts(*self), ", "@)] + opt(
                    self.affected > 0,
                    text::decimal(self.affected as nat) + " affected"@,
                ) + opt(self.blocking > 0, counted_text(self.blocking as nat, "blocking diagnostic"@)) + opt(
                    self.unacknowledged > 0,
                    text::decimal(self.unacknowledged as nat) + " acknowledgement"@ + (if self.unacknowledged
                        == 1 {
                        ""@
                    } else {
                        "s"@
                    }) + " required"@,
                );
                assert(ids::views(parts@) =~= expected);
            }
            let body = join_strings(&parts, " · ");
            text::concat2("Diagnostics — ", body.as_str())
        }
    }
}

} // verus!
