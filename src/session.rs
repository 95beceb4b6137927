//! The interactive session: which line is asked for next, and what each answer leads to.
use vstd::prelude::*;
use crate::client::WeatherQuery;
use crate::style::{ColorCategory, style_text, styled_as};

verus! {

/// A character of Unicode's White_Space property.
pub open spec fn is_white_space(c: char) -> bool {
    ||| '\u{9}' <= c && c <= '\u{D}'
    ||| c == ' '
    ||| c == '\u{85}'
    ||| c == '\u{A0}'
    ||| c == '\u{1680}'
    ||| '\u{2000}' <= c && c <= '\u{200A}'
    ||| c == '\u{2028}'
    ||| c == '\u{2029}'
    ||| c == '\u{202F}'
    ||| c == '\u{205F}'
    ||| c == '\u{3000}'
}

/// `s` without its leading white space.
pub open spec fn trim_start(s: Seq<char>) -> Seq<char>
    decreases s.len(),
{
    if s.len() > 0 && is_white_space(s[0]) {
        trim_start(s.drop_first())
    } else {
        s
    }
}

/// `s` without its trailing white space.
pub open spec fn trim_end(s: Seq<char>) -> Seq<char>
    decreases s.len(),
{
    if s.len() > 0 && is_white_space(s.last()) {
        trim_end(s.drop_last())
    } else {
        s
    }
}

/// A line without its leading and trailing white space.
pub open spec fn trimmed(s: Seq<char>) -> Seq<char> {
    trim_end(trim_start(s))
}

/// Relies on `str::trim`: the line without its leading and trailing characters
/// of the White_Space property.
#[verifier::external_body]
fn trim_line(s: &str) -> (r: String)
    ensures
        r@ == trimmed(s@),
{
    s.trim().to_string()
}

/// The answer that asks for another lookup.
pub open spec fn is_yes(answer: Seq<char>) -> bool {
    answer == "yes"@
}

/// Whether a trimmed answer asks for another lookup: exactly "yes", case and all.
pub fn wants_another(answer: &str) -> (r: bool)
    ensures
        r == is_yes(answer@),
{
    let a = String::from_str(answer);
    let yes = String::from_str("yes");
    a.eq(&yes)
}

/// Where a session stands.
#[derive(Clone, Debug)]
pub enum Phase {
    /// Waiting for the city.
    AwaitCity,
    /// Waiting for the country code of the city already read.
    AwaitCountry { city: String },
    /// Waiting for the answer to "another city?".
    AwaitRepeat,
    /// The session is over.
    Done,
}

/// What the caller does after a step.
#[derive(Clone, Debug)]
pub enum Action {
    /// Nothing to do but read the next line.
    Continue,
    /// Look the query up and show the outcome.
    Lookup(WeatherQuery),
    /// Say goodbye; the session is over.
    Farewell,
}

/// A phase without the data it carries.
#[derive(Clone, Copy, Debug, PartialEq, Eq)]
pub enum Stage {
    City,
    Country,
    Repeat,
    Finished,
}

pub open spec fn stage_of(p: Phase) -> Stage {
    match p {
        Phase::AwaitCity => Stage::City,
        Phase::AwaitCountry { .. } => Stage::Country,
        Phase::AwaitRepeat => Stage::Repeat,
        Phase::Done => Stage::Finished,
    }
}

/// The stage that follows `s` once `line` is read.
pub open spec fn next_stage(s: Stage, line: Seq<char>) -> Stage {
    match s {
        Stage::City => Stage::Country,
        Stage::Country => Stage::Repeat,
        Stage::Repeat => if is_yes(trimmed(line)) {
            Stage::City
        } else {
            Stage::Finished
        },
        Stage::Finished => Stage::Finished,
    }
}

/// The stage reached from `s` after reading `lines` in order.
pub open spec fn stage_after(s: Stage, lines: Seq<Seq<char>>) -> Stage
    decreases lines.len(),
{
    if lines.len() == 0 {
        s
    } else {
        next_stage(stage_after(s, lines.drop_last()), lines.last())
    }
}

impl Phase {
    /// The phase a session starts in.
    pub fn start() -> (r: Phase)
        ensures
            stage_of(r) == Stage::City,
    {
        Phase::AwaitCity
    }

    /// Whether the session is over.
    pub fn is_done(&self) -> (r: bool)
        ensures
            r == (stage_of(*self) == Stage::Finished),
    {
        matches!(self, Phase::Done)
    }

    /// The question shown before the line this phase waits for; none once done.
    pub fn prompt(&self) -> (r: Option<&'static str>)
        ensures
            stage_of(*self) == Stage::City ==> r == Some("Please enter the name of the city:"),
            stage_of(*self) == Stage::Country ==> r == Some("Please enter the country code:"),
            stage_of(*self) == Stage::Repeat ==> r == Some(
                "Do you want to check the weather in another city? (yes/no)",
            ),
            stage_of(*self) == Stage::Finished ==> r is None,
    {
        match self {
            Phase::AwaitCity => Some("Please enter the name of the city:"),
            Phase::AwaitCountry { .. } => Some("Please enter the country code:"),
            Phase::AwaitRepeat => Some("Do you want to check the weather in another city? (yes/no)"),
            Phase::Done => None,
        }
    }
}

/// The prompt as shown on the terminal, in bright green where `colours` is on.
pub fn styled_prompt(prompt: &str, colours: bool) -> (r: String)
    ensures
        styled_as(ColorCategory::BrightGreen, colours, prompt@, r@),
{
    style_text(prompt, ColorCategory::BrightGreen, colours)
}

/// Reads one line in phase `phase`: the next phase, and what to do.
///
/// The city and the country code are kept trimmed; after the country code
/// comes the lookup, and after the answer either a new round or the farewell.
pub fn step(phase: Phase, line: &str) -> (r: (Phase, Action))
    ensures
        stage_of(r.0) == next_stage(stage_of(phase), line@),
        stage_of(phase) == Stage::City ==> (r.0 matches Phase::AwaitCountry { city } && city@
            == trimmed(line@)) && r.1 is Continue,
        phase matches Phase::AwaitCountry { city } ==> (r.1 matches Action::Lookup(q) && q.city
            == city && q.country_code@ == trimmed(line@)),
        stage_of(phase) == Stage::Repeat ==> if is_yes(trimmed(line@)) {
            r.1 is Continue
        } else {
            r.1 is Farewell
        },
        stage_of(phase) == Stage::Finished ==> r.1 is Continue,
{
    match phase {
        Phase::AwaitCity => {
            let city = trim_line(line);
            (Phase::AwaitCountry { city }, Action::Continue)
        },
        Phase::AwaitCountry { city } => {
            let country_code = trim_line(line);
            (Phase::AwaitRepeat, Action::Lookup(WeatherQuery { city, country_code }))
        },
        Phase::AwaitRepeat => {
            let answer = trim_line(line);
            if wants_another(answer.as_str()) {
                (Phase::AwaitCity, Action::Continue)
            } else {
                (Phase::Done, Action::Farewell)
            }
        },
        Phase::Done => (Phase::Done, Action::Continue),
    }
}

/// Rounds of a session: three lines each (city, country code, answer), where
/// each round's answer is the line at its third place.
pub open spec fn rounds_of(lines: Seq<Seq<char>>, answers: Seq<Seq<char>>) -> bool {
    &&& lines.len() == 3 * answers.len()
    &&& forall|i: int| 0 <= i < answers.len() ==> #[trigger] answers[i] == lines[3 * i + 2]
}

proof fn lemma_rounds_prefix(lines: Seq<Seq<char>>, answers: Seq<Seq<char>>, j: int)
    requires
        rounds_of(lines, answers),
        0 <= j <= answers.len(),
        forall|i: int| 0 <= i < j ==> is_yes(trimmed(#[trigger] answers[i])),
    ensures
        stage_after(Stage::City, lines.take(3 * j)) == Stage::City,
    decreases j,
{
    if j > 0 {
        lemma_rounds_prefix(lines, answers, j - 1);
        let l3 = lines.take(3 * j);
        let l2 = lines.take(3 * j - 1);
        let l1 = lines.take(3 * j - 2);
        assert(l3.drop_last() =~= l2);
        assert(l2.drop_last() =~= l1);
        assert(l1.drop_last() =~= lines.take(3 * (j - 1)));
        assert(answers[j - 1] == lines[3 * (j - 1) + 2]);
        assert(l3.last() == answers[j - 1]);
        assert(stage_after(Stage::City, l1) == Stage::Country);
        assert(stage_after(Stage::City, l2) == Stage::Repeat);
    }
}

/// A session goes on after every answer that trims to exactly "yes", and ends
/// with the first round whose answer does not.
pub proof fn lemma_session_ends_on_first_refusal(lines: Seq<Seq<char>>, answers: Seq<Seq<char>>)
    requires
        rounds_of(lines, answers),
        answers.len() > 0,
        forall|i: int| 0 <= i < answers.len() - 1 ==> is_yes(trimmed(#[trigger] answers[i])),
        !is_yes(trimmed(answers.last())),
    ensures
        forall|j: int|
            0 <= j < answers.len() ==> stage_after(Stage::City, #[trigger] lines.take(3 * j))
                == Stage::City,
        stage_after(Stage::City, lines) == Stage::Finished,
{
    let n = answers.len() as int;
    assert forall|j: int| 0 <= j < answers.len() implies stage_after(
        Stage::City,
        #[trigger] lines.take(3 * j),
    ) == Stage::City by {
        lemma_rounds_prefix(lines, answers, j);
    }
    lemma_rounds_prefix(lines, answers, n - 1);
    let l2 = lines.take(3 * n - 1);
    let l1 = lines.take(3 * n - 2);
    assert(lines.drop_last() =~= l2);
    assert(l2.drop_last() =~= l1);
    assert(l1.drop_last() =~= lines.take(3 * (n - 1)));
    assert(answers[n - 1] == lines[3 * (n - 1) + 2]);
    assert(lines.last() == answers[n - 1]);
    assert(stage_after(Stage::City, l1) == Stage::Country);
    assert(stage_after(Stage::City, l2) == Stage::Repeat);
}

} // verus!
