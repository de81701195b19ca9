//! The formats in which samples can be sent.
use vstd::prelude::*;

use crate::text;

verus! {

#[derive(Clone, Copy, Debug, PartialEq, Eq, Structural)]
pub enum OutputFormat {
    Demo,
    Legacy,
    Sent1,
    Sent2,
    Sent3,
}

/// The format that a setting names, whatever its capitals and the space around it.
pub open spec fn format_of(s: Seq<char>) -> Option<OutputFormat> {
    let word = text::lowered(text::trimmed(s));
    if word == "demo"@ {
        Some(OutputFormat::Demo)
    } else if word == "legacy"@ {
        Some(OutputFormat::Legacy)
    } else if word == "sent1"@ {
        Some(OutputFormat::Sent1)
    } else if word == "sent2"@ {
        Some(OutputFormat::Sent2)
    } else if word == "sent3"@ || word == "sent539"@ {
        Some(OutputFormat::Sent3)
    } else {
        None
    }
}

/// The format that a setting names, of those that go out on the command line: all but the
/// frames of the demo board.
pub open spec fn line_format_of(s: Seq<char>) -> Option<OutputFormat> {
    match format_of(s) {
        Some(OutputFormat::Demo) => None,
        other => other,
    }
}

impl OutputFormat {
    pub fn parse(setting: &str) -> (r: Option<Self>)
        ensures
            r == format_of(setting@),
    {
        let chars: Vec<char> = text::chars_of(setting);
        let word: &[char] = text::trim(chars.as_slice());
        if text::is_word(word, "demo") {
            Some(OutputFormat::Demo)
        } else if text::is_word(word, "legacy") {
            Some(OutputFormat::Legacy)
        } else if text::is_word(word, "sent1") {
            Some(OutputFormat::Sent1)
        } else if text::is_word(word, "sent2") {
            Some(OutputFormat::Sent2)
        } else if text::is_word(word, "sent3") || text::is_word(word, "sent539") {
            Some(OutputFormat::Sent3)
        } else {
            None
        }
    }

    /// The format that a setting of the command line names.
    pub fn parse_line(setting: &str) -> (r: Option<Self>)
        ensures
            r == line_format_of(setting@),
    {
        match OutputFormat::parse(setting) {
            Some(OutputFormat::Demo) => None,
            other => other,
        }
    }

    pub open spec fn name(self) -> Seq<char> {
        match self {
            OutputFormat::Demo => "DEMO"@,
            OutputFormat::Legacy => "legacy"@,
            OutputFormat::Sent1 => "SENT1"@,
            OutputFormat::Sent2 => "SENT2"@,
            OutputFormat::Sent3 => "SENT3"@,
        }
    }

    pub fn label(self) -> (r: &'static str)
        ensures
            r@ == self.name(),
    {
        match self {
            OutputFormat::Demo => "DEMO",
            OutputFormat::Legacy => "legacy",
            OutputFormat::Sent1 => "SENT1",
            OutputFormat::Sent2 => "SENT2",
            OutputFormat::Sent3 => "SENT3",
        }
    }

    /// How many microseconds a frame takes, where frames have a fixed length.
    pub open spec fn period_us(self) -> Option<u64> {
        match self {
            OutputFormat::Demo => Some(40_960),
            OutputFormat::Legacy => None,
            OutputFormat::Sent1 => Some(439),
            OutputFormat::Sent2 => Some(484),
            OutputFormat::Sent3 => Some(539),
        }
    }

    pub fn frame_us(self) -> (r: Option<u64>)
        ensures
            r == self.period_us(),
            r == match self {
                OutputFormat::Demo => Some(40_960u64),
                OutputFormat::Legacy => None,
                OutputFormat::Sent1 => Some(439u64),
                OutputFormat::Sent2 => Some(484u64),
                OutputFormat::Sent3 => Some(539u64),
            },
    {
        match self {
            OutputFormat::Demo => Some(40_960),
            OutputFormat::Legacy => None,
            OutputFormat::Sent1 => Some(439),
            OutputFormat::Sent2 => Some(484),
            OutputFormat::Sent3 => Some(539),
        }
    }

    pub fn all() -> (r: [Self; 5])
        ensures
            r@ == seq![
                OutputFormat::Demo,
                OutputFormat::Legacy,
                OutputFormat::Sent1,
                OutputFormat::Sent2,
                OutputFormat::Sent3,
            ],
    {
        let r: [Self; 5] = [
            OutputFormat::Demo,
            OutputFormat::Legacy,
            OutputFormat::Sent1,
            OutputFormat::Sent2,
            OutputFormat::Sent3,
        ];
        proof {
            assert(r@ =~= seq![
                OutputFormat::Demo,
                OutputFormat::Legacy,
                OutputFormat::Sent1,
                OutputFormat::Sent2,
                OutputFormat::Sent3,
            ]);
        }
        r
    }

    /// The mode in which the collector reads the format.
    pub open spec fn collector_mode(self) -> Seq<char> {
        match self {
            OutputFormat::Demo => "demo"@,
            OutputFormat::Legacy => "legacy"@,
            _ => "sent"@,
        }
    }

    pub fn collector_serial_mode(self) -> (r: &'static str)
        ensures
            r@ == self.collector_mode(),
    {
        match self {
            OutputFormat::Demo => "demo",
            OutputFormat::Legacy => "legacy",
            OutputFormat::Sent1 | OutputFormat::Sent2 | OutputFormat::Sent3 => "sent",
        }
    }
}

proof fn lemma_plain_word(s: Seq<char>)
    requires
        forall|i: int| 0 <= i < s.len() ==> !text::white_space(#[trigger] s[i]),
    ensures
        text::trimmed(s) == s,
{
}

/// The label of a format names it again, in any capitals; the collector reads the mode that
/// belongs to a format.
pub proof fn law_labels_name_formats(format: OutputFormat)
    ensures
        format_of(format.name()) == Some(format),
        crate::ingress::serial::mode_of(format.collector_mode()) == Some(
            match format {
                OutputFormat::Demo => crate::ingress::serial::SerialIngressMode::Demo,
                OutputFormat::Legacy => crate::ingress::serial::SerialIngressMode::Legacy,
                _ => crate::ingress::serial::SerialIngressMode::Sent,
            },
        ),
{
    reveal_strlit("DEMO");
    reveal_strlit("demo");
    reveal_strlit("legacy");
    reveal_strlit("SENT1");
    reveal_strlit("SENT2");
    reveal_strlit("SENT3");
    reveal_strlit("sent");
    reveal_strlit("sent1");
    reveal_strlit("sent2");
    reveal_strlit("sent3");
    lemma_plain_word(format.name());
    lemma_plain_word(format.collector_mode());
    assert(text::lowered("DEMO"@) =~= "demo"@);
    assert(text::lowered("demo"@) =~= "demo"@);
    assert(text::lowered("legacy"@) =~= "legacy"@);
    assert(text::lowered("sent"@) =~= "sent"@);
    assert(text::lowered("SENT1"@) =~= "sent1"@);
    assert(text::lowered("SENT2"@) =~= "sent2"@);
    assert(text::lowered("SENT3"@) =~= "sent3"@);
    assert("sent1"@[4] != "sent2"@[4] && "sent2"@[4] != "sent3"@[4] && "sent1"@[4] != "sent3"@[4]);
    assert("demo"@.len() == 4 && "sent"@[0] != "demo"@[0]);
}

/// A format is chosen by its name, in whatever case and with blanks around it; SENT3 also by
/// "sent539". Any other word chooses none. On the command line the demo format cannot be chosen.
pub proof fn law_format_words(s: Seq<char>)
    ensures
        ({
            let word = text::lowered(text::trimmed(s));
            &&& format_of(s) == Some(OutputFormat::Demo) <==> word == "demo"@
            &&& format_of(s) == Some(OutputFormat::Legacy) <==> word == "legacy"@
            &&& format_of(s) == Some(OutputFormat::Sent1) <==> word == "sent1"@
            &&& format_of(s) == Some(OutputFormat::Sent2) <==> word == "sent2"@
            &&& format_of(s) == Some(OutputFormat::Sent3) <==> word == "sent3"@ || word
                == "sent539"@
            &&& line_format_of(s) != Some(OutputFormat::Demo)
            &&& format_of(s) != Some(OutputFormat::Demo) ==> line_format_of(s) == format_of(s)
            &&& format_of(s) == Some(OutputFormat::Demo) ==> line_format_of(s) is None
        }),
{
    reveal_strlit("demo");
    reveal_strlit("legacy");
    reveal_strlit("sent1");
    reveal_strlit("sent2");
    reveal_strlit("sent3");
    reveal_strlit("sent539");
    assert("demo"@.len() == 4 && "legacy"@.len() == 6 && "sent1"@.len() == 5 && "sent2"@.len() == 5
        && "sent3"@.len() == 5 && "sent539"@.len() == 7);
    assert("sent1"@[4] != "sent2"@[4] && "sent1"@[4] != "sent3"@[4] && "sent2"@[4] != "sent3"@[4]);
}

/// The names on view.
pub proof fn law_format_names()
    ensures
        OutputFormat::Demo.name() == "DEMO"@,
        OutputFormat::Legacy.name() == "legacy"@,
        OutputFormat::Sent1.name() == "SENT1"@,
        OutputFormat::Sent2.name() == "SENT2"@,
        OutputFormat::Sent3.name() == "SENT3"@,
{
}

/// How long a frame takes on the wire; a plain frame takes as long as it is.
pub proof fn law_periods()
    ensures
        OutputFormat::Demo.period_us() == Some(40_960u64),
        OutputFormat::Legacy.period_us() is None,
        OutputFormat::Sent1.period_us() == Some(439u64),
        OutputFormat::Sent2.period_us() == Some(484u64),
        OutputFormat::Sent3.period_us() == Some(539u64),
{
}

} // verus!
