//! The metric sampler: from the outcome of the diagnostic command to a sample.
//!
//! Running the command is left to the caller. What it hands over is a
//! [`CommandOutcome`]; what it gets back is a [`SampleResult`].

use crate::text::{
    after_first_line, all_spaces, chars_of, first_line, is_trimmed, lemma_leading_spaces,
    lemma_trim_strips, line_end, lines, skip_spaces, skip_spaces_back, starts_with, trim,
    trim_start,
};
use vstd::prelude::*;
use vstd::string::*;
use vstd::utf8::{decode_utf8, valid_utf8};

verus! {

/// The diagnostic utility that reports on power devices.
pub const PROGRAM: &'static str = "upower";

/// The flag that asks the utility for the details of one device.
pub const INFO_FLAG: &'static str = "-i";

/// The device whose energy rate is sampled.
pub const DEVICE: &'static str = "/org/freedesktop/UPower/devices/battery_BAT0";

/// The label of the line that carries the energy rate.
pub open spec fn label() -> Seq<char> {
    "energy-rate:"@
}

/// What a reading begins with.
pub open spec fn heading() -> Seq<char> {
    "Energy Rate: "@
}

/// The reason given for a failure that left no diagnostic text.
pub open spec fn generic_failure() -> Seq<char> {
    "Error"@
}

/// The text shown in place of a reading after a failed sample.
pub open spec fn placeholder() -> Seq<char> {
    "Error"@
}

/// How one run of the diagnostic command ended.
#[derive(Clone, Debug, PartialEq, Eq)]
pub enum CommandOutcome {
    /// The command could not be started; `detail` says why.
    NotStarted { detail: String },
    /// The command ran and ended with the exit code `code`, or without one
    /// where a signal ended it, having written `stdout` and `stderr`.
    Exited { code: Option<i32>, stdout: Vec<u8>, stderr: Vec<u8> },
}

/// The result of one sample: a reading, or the reason why there is none.
#[derive(Clone, Debug, PartialEq, Eq)]
pub enum SampleResult {
    /// The reading; empty where the command reported no energy rate.
    Reading(String),
    /// The sample failed, for the reason given.
    Failed(String),
}

/// A [`SampleResult`] with its texts as sequences of characters.
pub ghost enum SampleView {
    Reading(Seq<char>),
    Failed(Seq<char>),
}

impl View for SampleResult {
    type V = SampleView;

    open spec fn view(&self) -> SampleView {
        match self {
            SampleResult::Reading(value) => SampleView::Reading(value@),
            SampleResult::Failed(reason) => SampleView::Failed(reason@),
        }
    }
}

impl SampleView {
    /// The text that stands for this sample in the application state.
    pub open spec fn text(self) -> Seq<char> {
        match self {
            SampleView::Reading(value) => value,
            SampleView::Failed(_) => placeholder(),
        }
    }
}

/// Whether `line` carries the energy rate: after its leading white space it
/// begins with the label.
pub open spec fn carries_label(line: Seq<char>) -> bool {
    label().is_prefix_of(trim_start(line))
}

/// The value on a line that carries the label: what follows the label,
/// without the white space at either end.
pub open spec fn value_of(line: Seq<char>) -> Seq<char> {
    trim(trim_start(line).skip(label().len() as int))
}

/// The first line of `text` that carries the label, if there is one.
pub open spec fn rate_line(text: Seq<char>) -> Option<Seq<char>>
    decreases text.len(),
{
    if text.len() == 0 {
        None
    } else if carries_label(first_line(text)) {
        Some(first_line(text))
    } else {
        rate_line(after_first_line(text))
    }
}

/// The reading that the output `text` of a successful run gives: the heading
/// and the value of the first line that carries the label, or nothing where
/// no line does.
pub open spec fn reading(text: Seq<char>) -> Seq<char> {
    match rate_line(text) {
        Some(line) => heading() + value_of(line),
        None => Seq::empty(),
    }
}

/// The reason reported for a failure whose diagnostic text is `detail`.
pub open spec fn failure_reason(detail: Seq<char>) -> Seq<char> {
    if detail.len() == 0 {
        generic_failure()
    } else {
        detail
    }
}

/// Whether a run that ended with `code` succeeded: its exit code is 0.
pub open spec fn succeeded(code: Option<i32>) -> bool {
    code == Some(0i32)
}

/// The sample that a run gives which ended with `code` and wrote the texts
/// `stdout` and `stderr`.
pub open spec fn interpreted(code: Option<i32>, stdout: Seq<char>, stderr: Seq<char>) -> SampleView {
    if succeeded(code) {
        SampleView::Reading(reading(stdout))
    } else {
        SampleView::Failed(failure_reason(stderr))
    }
}

/// The line found is the first of the lines that carries the label: where
/// line `i` carries it and no line before does, that line is the one.
pub proof fn lemma_first_rate_line(text: Seq<char>, i: int)
    requires
        0 <= i < lines(text).len(),
        carries_label(lines(text)[i]),
        forall|j: int| 0 <= j < i ==> !carries_label(#[trigger] lines(text)[j]),
    ensures
        rate_line(text) == Some(lines(text)[i]),
    decreases i,
{
    let rest = after_first_line(text);
    assert(lines(text)[0] == first_line(text));
    if i > 0 {
        assert forall|j: int| 0 <= j < i - 1 implies !carries_label(#[trigger] lines(rest)[j]) by {
            assert(lines(rest)[j] == lines(text)[j + 1]);
        }
        assert(lines(rest)[i - 1] == lines(text)[i]);
        lemma_first_rate_line(rest, i - 1);
    }
}

/// Where no line carries the label, no line is found.
pub proof fn lemma_no_rate_line(text: Seq<char>)
    requires
        forall|j: int| 0 <= j < lines(text).len() ==> !carries_label(#[trigger] lines(text)[j]),
    ensures
        rate_line(text) is None,
    decreases text.len(),
{
    if text.len() > 0 {
        let rest = after_first_line(text);
        assert(lines(text)[0] == first_line(text));
        assert forall|j: int| 0 <= j < lines(rest).len() implies !carries_label(
            #[trigger] lines(rest)[j],
        ) by {
            assert(lines(rest)[j] == lines(text)[j + 1]);
        }
        lemma_no_rate_line(rest);
    }
}

/// A line made of white space, the label, and a value with white space
/// around it carries the label, and its value is that value.
pub proof fn lemma_labelled_line(pad: Seq<char>, gap: Seq<char>, value: Seq<char>, trail: Seq<char>)
    requires
        all_spaces(pad),
        all_spaces(gap),
        all_spaces(trail),
        is_trimmed(value),
    ensures
        carries_label(pad + label() + gap + value + trail),
        value_of(pad + label() + gap + value + trail) == value,
{
    reveal_strlit("energy-rate:");
    let line = pad + label() + gap + value + trail;
    assert(line[pad.len() as int] == label()[0]);
    lemma_leading_spaces(line, pad.len() as int);
    let body = trim_start(line);
    assert(body =~= label() + (gap + value + trail));
    assert(body.subrange(0, label().len() as int) =~= label());
    assert(body.skip(label().len() as int) =~= gap + value + trail);
    lemma_trim_strips(gap, value, trail);
}

/// A successful run whose output has, as the first line to carry the label,
/// the label and a value with any white space around either, gives the
/// reading made of the heading and that value.
pub proof fn lemma_reading_of_first_rate_line(
    stdout: Seq<char>,
    stderr: Seq<char>,
    i: int,
    pad: Seq<char>,
    gap: Seq<char>,
    value: Seq<char>,
    trail: Seq<char>,
)
    requires
        0 <= i < lines(stdout).len(),
        lines(stdout)[i] == pad + label() + gap + value + trail,
        all_spaces(pad),
        all_spaces(gap),
        all_spaces(trail),
        is_trimmed(value),
        forall|j: int| 0 <= j < i ==> !carries_label(#[trigger] lines(stdout)[j]),
    ensures
        interpreted(Some(0i32), stdout, stderr) == SampleView::Reading(heading() + value),
{
    lemma_labelled_line(pad, gap, value, trail);
    lemma_first_rate_line(stdout, i);
}

/// A successful run whose output has no line that carries the label gives
/// the empty reading.
pub proof fn lemma_reading_without_rate_line(stdout: Seq<char>, stderr: Seq<char>)
    requires
        forall|j: int| 0 <= j < lines(stdout).len() ==> !carries_label(#[trigger] lines(stdout)[j]),
    ensures
        interpreted(Some(0i32), stdout, stderr) == SampleView::Reading(Seq::empty()),
{
    lemma_no_rate_line(stdout);
}

/// A run that ended with any exit code but 0, or with none, gives a failed
/// sample, whatever it wrote; the reason is its diagnostic text, or the
/// generic one where that is empty.
pub proof fn lemma_failed_run(code: Option<i32>, stdout: Seq<char>, stderr: Seq<char>)
    requires
        code != Some(0i32),
    ensures
        interpreted(code, stdout, stderr) is Failed,
        stderr.len() > 0 ==> interpreted(code, stdout, stderr) == SampleView::Failed(stderr),
        stderr.len() == 0 ==> interpreted(code, stdout, stderr) == SampleView::Failed(
            generic_failure(),
        ),
{
}

/// The text that `String::from_utf8_lossy` makes of `bytes`: their decoding as
/// UTF-8, with U+FFFD in place of each sequence that is not valid.
pub uninterp spec fn lossy_text(bytes: Seq<u8>) -> Seq<char>;

/// The sample that `outcome` gives.
pub open spec fn sampled(outcome: CommandOutcome) -> SampleView {
    match outcome {
        CommandOutcome::NotStarted { detail } => SampleView::Failed(failure_reason(detail@)),
        CommandOutcome::Exited { code, stdout, stderr } => interpreted(
            code,
            lossy_text(stdout@),
            lossy_text(stderr@),
        ),
    }
}

/// Whether the outputs of `outcome` are valid UTF-8. A command that did not
/// start has none.
pub open spec fn well_formed(outcome: CommandOutcome) -> bool {
    match outcome {
        CommandOutcome::NotStarted { .. } => true,
        CommandOutcome::Exited { stdout, stderr, .. } => valid_utf8(stdout@) && valid_utf8(
            stderr@,
        ),
    }
}

/// The sample that `outcome` gives, with each output read as the text that
/// it encodes.
pub open spec fn sampled_as_encoded(outcome: CommandOutcome) -> SampleView
    recommends
        well_formed(outcome),
{
    match outcome {
        CommandOutcome::NotStarted { detail } => SampleView::Failed(failure_reason(detail@)),
        CommandOutcome::Exited { code, stdout, stderr } => interpreted(
            code,
            decode_utf8(stdout@),
            decode_utf8(stderr@),
        ),
    }
}

/// Decodes `bytes` with `String::from_utf8_lossy`.
///
/// Trusted: the result is the text named [`lossy_text`], and valid UTF-8
/// decodes to exactly the characters that it encodes.
#[verifier::external_body]
fn decode_lossy(bytes: &Vec<u8>) -> (text: String)
    ensures
        text@ == lossy_text(bytes@),
        valid_utf8(bytes@) ==> text@ == decode_utf8(bytes@),
{
    String::from_utf8_lossy(bytes).into_owned()
}

/// Where in `chars` the value of the first line that carries `label` stands.
fn find_value(chars: &Vec<char>, label: &Vec<char>) -> (span: Option<(usize, usize)>)
    requires
        label@ == self::label(),
    ensures
        match span {
            Some((from, to)) => {
                &&& from <= to <= chars.len()
                &&& rate_line(chars@) is Some
                &&& chars@.subrange(from as int, to as int) == value_of(rate_line(chars@)->0)
            },
            None => rate_line(chars@) is None,
        },
{
    let mut start: usize = 0;
    assert(chars@.skip(0) =~= chars@);
    while start < chars.len()
        invariant
            start <= chars.len(),
            label@ == self::label(),
            rate_line(chars@) == rate_line(chars@.skip(start as int)),
        decreases chars.len() - start,
    {
        let ghost rest = chars@.skip(start as int);
        let end = line_end(chars, start);
        let ghost line = chars@.subrange(start as int, end as int);
        assert(first_line(rest) =~= line);
        let at = skip_spaces(chars, start, end);
        assert(trim_start(line) =~= chars@.subrange(at as int, end as int));
        if starts_with(chars, at, end, label) {
            let after = at + label.len();
            let ghost tail = chars@.subrange(after as int, end as int);
            assert(trim_start(line).skip(label@.len() as int) =~= tail);
            let from = skip_spaces(chars, after, end);
            assert(trim_start(tail) =~= chars@.subrange(from as int, end as int));
            let to = skip_spaces_back(chars, from, end);
            assert(trim(tail) =~= chars@.subrange(from as int, to as int));
            return Some((from, to));
        }
        if end == chars.len() {
            assert(after_first_line(rest) =~= Seq::<char>::empty());
            assert(rate_line(Seq::<char>::empty()) is None);
            return None;
        }
        assert(after_first_line(rest) =~= chars@.skip(end + 1));
        start = end + 1;
    }
    assert(chars@.skip(start as int).len() == 0);
    None
}

/// Interprets one run of the diagnostic command from its exit code and its
/// two texts.
///
/// A run that did not exit with code 0 gives `Failed` with the diagnostic
/// text, or with the generic reason where that text is empty. A successful
/// run gives `Reading` with the reading of its output, which is empty where
/// no line carries the label.
pub fn interpret(code: Option<i32>, stdout: &str, stderr: &str) -> (result: SampleResult)
    ensures
        result@ == interpreted(code, stdout@, stderr@),
{
    let success = match code {
        Some(c) => c == 0,
        None => false,
    };
    if !success {
        if stderr.unicode_len() == 0 {
            return SampleResult::Failed(String::from_str("Error"));
        }
        return SampleResult::Failed(String::from_str(stderr));
    }
    let chars = chars_of(stdout);
    let label = chars_of("energy-rate:");
    match find_value(&chars, &label) {
        Some((from, to)) => {
            let value = stdout.substring_char(from, to);
            SampleResult::Reading(String::from_str("Energy Rate: ").concat(value))
        },
        None => SampleResult::Reading(String::new()),
    }
}

/// Takes one sample from the outcome of one run of the diagnostic command.
///
/// A command that could not be started gives `Failed` with the detail of
/// that, or with the generic reason where the detail is empty. A command that
/// ran is interpreted from its exit and from its two outputs, each decoded as
/// UTF-8 with invalid sequences replaced; where both are valid UTF-8, the
/// texts are exactly what they encode.
pub fn sample(outcome: &CommandOutcome) -> (result: SampleResult)
    ensures
        result@ == sampled(*outcome),
        well_formed(*outcome) ==> result@ == sampled_as_encoded(*outcome),
{
    match outcome {
        CommandOutcome::NotStarted { detail } => interpret(None, "", detail.as_str()),
        CommandOutcome::Exited { code, stdout, stderr } => {
            let out = decode_lossy(stdout);
            let err = decode_lossy(stderr);
            interpret(*code, out.as_str(), err.as_str())
        },
    }
}

impl SampleResult {
    /// The text that stands for this sample in the application state: the
    /// reading, or the placeholder `Error` after a failure.
    pub fn text(&self) -> (text: String)
        ensures
            text@ == self@.text(),
    {
        match self {
            SampleResult::Reading(value) => value.clone(),
            SampleResult::Failed(_) => String::from_str("Error"),
        }
    }
}

} // verus!
