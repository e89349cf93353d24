//! The output side: a reporter turns the reported smells into text; the
//! layouts of the Markdown and console reports.
use vstd::prelude::*;
use crate::model::smell::{display_text, opt_view, severity_of, SmellView, TestSmell};
use crate::text::{chars_of, string_of};

verus! {

/// A report format.
pub trait SmellReporter {
    /// The report of `smells`.
    fn report(&self, smells: &[TestSmell]) -> String;
}

/// The decimal digit for `d`, below 10.
pub open spec fn digit_char(d: nat) -> char {
    if d == 0 {
        '0'
    } else if d == 1 {
        '1'
    } else if d == 2 {
        '2'
    } else if d == 3 {
        '3'
    } else if d == 4 {
        '4'
    } else if d == 5 {
        '5'
    } else if d == 6 {
        '6'
    } else if d == 7 {
        '7'
    } else if d == 8 {
        '8'
    } else {
        '9'
    }
}

/// `n` written in decimal, without leading zeros.
pub open spec fn decimal(n: nat) -> Seq<char>
    decreases n,
{
    if n < 10 {
        seq![digit_char(n)]
    } else {
        decimal(n / 10).push(digit_char(n % 10))
    }
}

/// `n` written in decimal, without leading zeros.
pub fn decimal_exec(n: u128) -> (r: Vec<char>)
    ensures
        r@ == decimal(n as nat),
    decreases n,
{
    let d = n % 10;
    let c = if d == 0 {
        '0'
    } else if d == 1 {
        '1'
    } else if d == 2 {
        '2'
    } else if d == 3 {
        '3'
    } else if d == 4 {
        '4'
    } else if d == 5 {
        '5'
    } else if d == 6 {
        '6'
    } else if d == 7 {
        '7'
    } else if d == 8 {
        '8'
    } else {
        '9'
    };
    if n < 10 {
        vec![c]
    } else {
        let mut v = decimal_exec(n / 10);
        v.push(c);
        v
    }
}

/// One finding of the agent, as the Markdown report shows it: the
/// confidence already turned into a whole percentage.
pub struct AgentLine {
    pub rule_name: String,
    pub file_path: String,
    pub line: usize,
    pub function_name: String,
    pub confidence_pct: u32,
    pub reason: String,
    pub suggestion: Option<String>,
}

/// An agent finding as plain values.
pub struct AgentLineView {
    pub rule_name: Seq<char>,
    pub file_path: Seq<char>,
    pub line: usize,
    pub function_name: Seq<char>,
    pub confidence_pct: u32,
    pub reason: Seq<char>,
    pub suggestion: Option<Seq<char>>,
}

impl View for AgentLine {
    type V = AgentLineView;

    open spec fn view(&self) -> AgentLineView {
        AgentLineView {
            rule_name: self.rule_name@,
            file_path: self.file_path@,
            line: self.line,
            function_name: self.function_name@,
            confidence_pct: self.confidence_pct,
            reason: self.reason@,
            suggestion: opt_view(self.suggestion),
        }
    }
}

/// Where a smell is: `` `path:line` ``, followed by ` in name` when it is in
/// a named function.
pub open spec fn smell_location(s: SmellView) -> Seq<char> {
    let at = "`"@ + s.file_path + ":"@ + decimal(s.line as nat) + "`"@;
    match s.function_name {
        Some(name) => at + " in "@ + name,
        None => at,
    }
}

/// The entry of one detected smell: kind, place and severity, then the message.
pub open spec fn smell_entry(s: SmellView) -> Seq<char> {
    "- **"@ + display_text(s.smell_type) + "** "@ + smell_location(s) + " (severity: "@ + decimal(
        severity_of(s.smell_type) as nat,
    ) + ")\n"@ + "  > "@ + s.message + "\n\n"@
}

/// The entries of `ss`, in order.
pub open spec fn smell_entries(ss: Seq<SmellView>) -> Seq<char>
    decreases ss.len(),
{
    if ss.len() == 0 {
        Seq::empty()
    } else {
        smell_entries(ss.drop_last()) + smell_entry(ss.last())
    }
}

/// The entry of one agent finding: rule, place and confidence, the reason,
/// and the suggestion when there is one.
pub open spec fn agent_entry(a: AgentLineView) -> Seq<char> {
    "- **"@ + a.rule_name + "** `"@ + a.file_path + ":"@ + decimal(a.line as nat) + "` in "@
        + a.function_name + " (confidence: "@ + decimal(a.confidence_pct as nat) + "%)\n"@ + "  > "@
        + a.reason + "\n"@ + match a.suggestion {
        Some(sg) => "  > 💡 "@ + sg + "\n"@,
        None => Seq::empty(),
    } + "\n"@
}

/// The entries of `items`, in order.
pub open spec fn agent_entries(items: Seq<AgentLineView>) -> Seq<char>
    decreases items.len(),
{
    if items.len() == 0 {
        Seq::empty()
    } else {
        agent_entries(items.drop_last()) + agent_entry(items.last())
    }
}

/// The Markdown report: a title, when it was generated, the target, the
/// counts, then a section of detected smells and a section of agent findings.
pub open spec fn markdown_text(
    target: Seq<char>,
    generated: Seq<char>,
    smells: Seq<SmellView>,
    agent: Seq<AgentLineView>,
) -> Seq<char> {
    "# Savanna Smell Report\n\n"@ + "Generated: "@ + generated + "\n"@ + "Target: "@ + target
        + "\n"@ + "Smells: "@ + decimal(smells.len() + agent.len()) + " (AST: "@ + decimal(
        smells.len(),
    ) + ", Agent: "@ + decimal(agent.len()) + ")\n"@ + "\n## AST Detection\n\n"@ + if smells.len()
        == 0 {
        "No AST smells detected.\n"@
    } else {
        smell_entries(smells)
    } + "## Agent Detection\n\n"@ + if agent.len() == 0 {
        "No Agent smells detected.\n"@
    } else {
        agent_entries(agent)
    }
}

/// Appends the characters of `s` to `out`.
fn push_str(out: &mut Vec<char>, s: &str)
    ensures
        final(out)@ == old(out)@ + s@,
{
    let cs = chars_of(s);
    push_chars(out, &cs);
}

/// Appends the characters `cs` to `out`.
fn push_chars(out: &mut Vec<char>, cs: &Vec<char>)
    ensures
        final(out)@ == old(out)@ + cs@,
{
    let ghost start = out@;
    let mut i: usize = 0;
    while i < cs.len()
        invariant
            i <= cs@.len(),
            out@ == start + cs@.take(i as int),
        decreases cs.len() - i,
    {
        out.push(cs[i]);
        i += 1;
        proof {
            assert(out@ =~= start + cs@.take(i as int));
        }
    }
    proof {
        assert(cs@.take(i as int) =~= cs@);
    }
}

/// Appends the entry of smell `s`.
fn push_smell_entry(out: &mut Vec<char>, s: &TestSmell)
    ensures
        final(out)@ == old(out)@ + smell_entry(s@),
{
    let ghost start = out@;
    push_str(out, "- **");
    push_str(out, s.smell_type.display_name());
    push_str(out, "** ");
    push_str(out, "`");
    push_str(out, s.file_path.as_str());
    push_str(out, ":");
    push_chars(out, &decimal_exec(s.line as u128));
    push_str(out, "`");
    match &s.function_name {
        Some(name) => {
            push_str(out, " in ");
            push_str(out, name.as_str());
        },
        None => {},
    }
    push_str(out, " (severity: ");
    push_chars(out, &decimal_exec(s.smell_type.severity() as u128));
    push_str(out, ")\n");
    push_str(out, "  > ");
    push_str(out, s.message.as_str());
    push_str(out, "\n\n");
    proof {
        assert(out@ =~= start + smell_entry(s@));
    }
}

/// Appends the entry of agent finding `a`.
fn push_agent_entry(out: &mut Vec<char>, a: &AgentLine)
    ensures
        final(out)@ == old(out)@ + agent_entry(a@),
{
    let ghost start = out@;
    push_str(out, "- **");
    push_str(out, a.rule_name.as_str());
    push_str(out, "** `");
    push_str(out, a.file_path.as_str());
    push_str(out, ":");
    push_chars(out, &decimal_exec(a.line as u128));
    push_str(out, "` in ");
    push_str(out, a.function_name.as_str());
    push_str(out, " (confidence: ");
    push_chars(out, &decimal_exec(a.confidence_pct as u128));
    push_str(out, "%)\n");
    push_str(out, "  > ");
    push_str(out, a.reason.as_str());
    push_str(out, "\n");
    match &a.suggestion {
        Some(sg) => {
            push_str(out, "  > 💡 ");
            push_str(out, sg.as_str());
            push_str(out, "\n");
        },
        None => {},
    }
    push_str(out, "\n");
    proof {
        assert(out@ =~= start + agent_entry(a@));
    }
}

/// The Markdown report of the detected `smells` and the agent's findings
/// `agent` for `target`, stamped with the time `generated`.
pub fn markdown_report(target: &str, generated: &str, smells: &[TestSmell], agent: &[AgentLine]) -> (r:
    String)
    ensures
        r@ == markdown_text(
            target@,
            generated@,
            smells@.map_values(|s: TestSmell| s@),
            agent@.map_values(|a: AgentLine| a@),
        ),
{
    let ghost sv = smells@.map_values(|s: TestSmell| s@);
    let ghost av = agent@.map_values(|a: AgentLine| a@);
    let mut out: Vec<char> = Vec::new();
    push_str(&mut out, "# Savanna Smell Report\n\n");
    push_str(&mut out, "Generated: ");
    push_str(&mut out, generated);
    push_str(&mut out, "\n");
    push_str(&mut out, "Target: ");
    push_str(&mut out, target);
    push_str(&mut out, "\n");
    push_str(&mut out, "Smells: ");
    push_chars(&mut out, &decimal_exec(smells.len() as u128 + agent.len() as u128));
    push_str(&mut out, " (AST: ");
    push_chars(&mut out, &decimal_exec(smells.len() as u128));
    push_str(&mut out, ", Agent: ");
    push_chars(&mut out, &decimal_exec(agent.len() as u128));
    push_str(&mut out, ")\n");
    push_str(&mut out, "\n## AST Detection\n\n");
    let ghost head = out@;
    if smells.len() == 0 {
        push_str(&mut out, "No AST smells detected.\n");
    } else {
        let mut i: usize = 0;
        while i < smells.len()
            invariant
                i <= smells@.len(),
                sv == smells@.map_values(|s: TestSmell| s@),
                out@ == head + smell_entries(sv.take(i as int)),
            decreases smells.len() - i,
        {
            push_smell_entry(&mut out, &smells[i]);
            proof {
                assert(sv.take(i as int + 1).drop_last() =~= sv.take(i as int));
            }
            i += 1;
        }
        proof {
            assert(sv.take(i as int) =~= sv);
        }
    }
    push_str(&mut out, "## Agent Detection\n\n");
    let ghost mid = out@;
    if agent.len() == 0 {
        push_str(&mut out, "No Agent smells detected.\n");
    } else {
        let mut i: usize = 0;
        while i < agent.len()
            invariant
                i <= agent@.len(),
                av == agent@.map_values(|a: AgentLine| a@),
                out@ == mid + agent_entries(av.take(i as int)),
            decreases agent.len() - i,
        {
            push_agent_entry(&mut out, &agent[i]);
            proof {
                assert(av.take(i as int + 1).drop_last() =~= av.take(i as int));
            }
            i += 1;
        }
        proof {
            assert(av.take(i as int) =~= av);
        }
    }
    proof {
        assert(out@ =~= markdown_text(target@, generated@, sv, av));
    }
    string_of(&out)
}

/// How a piece of console text is painted; the painting itself is the
/// terminal's business.
#[derive(Clone, Copy, Debug, PartialEq, Eq, Structural)]
pub enum Paint {
    Plain,
    Green,
    Red,
    RedBold,
    Yellow,
    White,
    Bold,
    Dimmed,
    DimmedItalic,
}

/// Console segments as plain values.
pub open spec fn segs_view(v: Seq<(String, Paint)>) -> Seq<(Seq<char>, Paint)> {
    v.map_values(|p: (String, Paint)| (p.0@, p.1))
}

/// The severity bar for a severity of 1 to 5, and how it is painted.
pub open spec fn severity_bar(severity: u8) -> (Seq<char>, Paint) {
    if severity == 5 {
        ("███"@, Paint::RedBold)
    } else if severity == 4 {
        ("██░"@, Paint::Red)
    } else if severity == 3 {
        ("██░"@, Paint::Yellow)
    } else if severity == 2 {
        ("█░░"@, Paint::Yellow)
    } else {
        ("░░░"@, Paint::White)
    }
}

/// The severity bar for `severity`, and how it is painted.
pub fn severity_bar_of(severity: u8) -> (r: (&'static str, Paint))
    ensures
        (r.0@, r.1) == severity_bar(severity),
{
    if severity == 5 {
        ("███", Paint::RedBold)
    } else if severity == 4 {
        ("██░", Paint::Red)
    } else if severity == 3 {
        ("██░", Paint::Yellow)
    } else if severity == 2 {
        ("█░░", Paint::Yellow)
    } else {
        ("░░░", Paint::White)
    }
}

/// Where a smell is, as the console shows it: `path:line`, followed by
/// ` in name` when it is in a named function.
pub open spec fn console_location(s: SmellView) -> Seq<char> {
    let at = s.file_path + ":"@ + decimal(s.line as nat);
    match s.function_name {
        Some(name) => at + " in "@ + name,
        None => at,
    }
}

/// The console lines of one smell: its severity bar, kind and place, then its message.
pub open spec fn console_entry(s: SmellView) -> Seq<(Seq<char>, Paint)> {
    seq![
        ("  "@, Paint::Plain),
        severity_bar(severity_of(s.smell_type)),
        (" "@, Paint::Plain),
        (display_text(s.smell_type), Paint::Bold),
        (" "@, Paint::Plain),
        (console_location(s), Paint::Dimmed),
        ("\n"@, Paint::Plain),
        ("    💬 "@ + s.message + "\n\n"@, Paint::Plain),
    ]
}

/// The console lines of `ss`, in order.
pub open spec fn console_entries(ss: Seq<SmellView>) -> Seq<(Seq<char>, Paint)>
    decreases ss.len(),
{
    if ss.len() == 0 {
        Seq::empty()
    } else {
        console_entries(ss.drop_last()) + console_entry(ss.last())
    }
}

/// The console report: a line of approval when nothing was found;
/// otherwise the count, each smell, and the closing line.
pub open spec fn console_layout(ss: Seq<SmellView>) -> Seq<(Seq<char>, Paint)> {
    if ss.len() == 0 {
        seq![
            ("\n"@, Paint::Plain),
            ("✓"@, Paint::Green),
            ("  No test smells detected. Even t_wada would approve.\n"@, Paint::Plain),
        ]
    } else {
        seq![("\n🦁  "@ + decimal(ss.len()) + " test smell(s) detected:\n\n"@, Paint::Plain)]
            + console_entries(ss) + seq![
            ("  "@, Paint::Plain),
            ("— t_wada の前でも同じこと言えんの？"@, Paint::DimmedItalic),
            ("\n"@, Paint::Plain),
        ]
    }
}

/// Appends the segment `text` painted with `paint`.
fn push_seg(out: &mut Vec<(String, Paint)>, text: String, paint: Paint)
    ensures
        segs_view(final(out)@) == segs_view(old(out)@).push((text@, paint)),
{
    let ghost before = out@;
    out.push((text, paint));
    proof {
        assert(segs_view(out@) =~= segs_view(before).push((text@, paint)));
    }
}

/// Appends the literal `text` painted with `paint`.
fn push_lit(out: &mut Vec<(String, Paint)>, text: &str, paint: Paint)
    ensures
        segs_view(final(out)@) == segs_view(old(out)@).push((text@, paint)),
{
    push_seg(out, String::from_str(text), paint);
}

/// Appends the console lines of smell `s`.
fn push_console_entry(out: &mut Vec<(String, Paint)>, s: &TestSmell)
    ensures
        segs_view(final(out)@) == segs_view(old(out)@) + console_entry(s@),
{
    let ghost before = segs_view(out@);
    let sev = s.smell_type.severity();
    push_lit(out, "  ", Paint::Plain);
    let (bar, paint) = severity_bar_of(sev);
    push_lit(out, bar, paint);
    push_lit(out, " ", Paint::Plain);
    push_lit(out, s.smell_type.display_name(), Paint::Bold);
    push_lit(out, " ", Paint::Plain);
    let mut loc: Vec<char> = Vec::new();
    push_str(&mut loc, s.file_path.as_str());
    push_str(&mut loc, ":");
    push_chars(&mut loc, &decimal_exec(s.line as u128));
    match &s.function_name {
        Some(name) => {
            push_str(&mut loc, " in ");
            push_str(&mut loc, name.as_str());
        },
        None => {},
    }
    push_seg(out, string_of(&loc), Paint::Dimmed);
    push_lit(out, "\n", Paint::Plain);
    let mut msg: Vec<char> = Vec::new();
    push_str(&mut msg, "    💬 ");
    push_str(&mut msg, s.message.as_str());
    push_str(&mut msg, "\n\n");
    push_seg(out, string_of(&msg), Paint::Plain);
    proof {
        assert(segs_view(out@) =~= before + console_entry(s@));
    }
}

/// The console report of `smells`, as text segments each with its paint.
pub fn console_segments(smells: &[TestSmell]) -> (r: Vec<(String, Paint)>)
    ensures
        segs_view(r@) == console_layout(smells@.map_values(|s: TestSmell| s@)),
{
    let ghost sv = smells@.map_values(|s: TestSmell| s@);
    let mut out: Vec<(String, Paint)> = Vec::new();
    if smells.len() == 0 {
        push_lit(&mut out, "\n", Paint::Plain);
        push_lit(&mut out, "✓", Paint::Green);
        push_lit(&mut out, "  No test smells detected. Even t_wada would approve.\n", Paint::Plain);
        proof {
            assert(segs_view(out@) =~= console_layout(sv));
        }
        return out;
    }
    let mut head: Vec<char> = Vec::new();
    push_str(&mut head, "\n🦁  ");
    push_chars(&mut head, &decimal_exec(smells.len() as u128));
    push_str(&mut head, " test smell(s) detected:\n\n");
    push_seg(&mut out, string_of(&head), Paint::Plain);
    let ghost first = segs_view(out@);
    let mut i: usize = 0;
    while i < smells.len()
        invariant
            i <= smells@.len(),
            sv == smells@.map_values(|s: TestSmell| s@),
            segs_view(out@) == first + console_entries(sv.take(i as int)),
        decreases smells.len() - i,
    {
        push_console_entry(&mut out, &smells[i]);
        proof {
            assert(sv.take(i as int + 1).drop_last() =~= sv.take(i as int));
        }
        i += 1;
    }
    proof {
        assert(sv.take(i as int) =~= sv);
    }
    push_lit(&mut out, "  ", Paint::Plain);
    push_lit(&mut out, "— t_wada の前でも同じこと言えんの？", Paint::DimmedItalic);
    push_lit(&mut out, "\n", Paint::Plain);
    proof {
        assert(segs_view(out@) =~= console_layout(sv));
    }
    out
}

} // verus!
