//! Logging configuration.

use crate::path::{shown, FsPath, Platform, ProjectDirs};
use crate::text::concat3;
use crate::trace::{asked, last_output, lemma_told_one_more, state_after, Machine};
use std::str::FromStr;
use vstd::prelude::*;
use vstd::utf8::*;

verus! {

/// Where logs should be written to.
#[derive(Debug, Clone, Copy, PartialEq, Eq, Structural)]
pub enum LogOutput {
    /// Write logs to stdout, the default.
    Stdout,

    /// Write logs to stdout, without writing a timestamp.
    StdoutNoTimestamp,

    /// Native logging to journald.
    Journald,

    /// Write logs to a rolling set of files, rotating daily.
    File,

    /// Disable logging.
    Disabled,
}

impl Default for LogOutput {
    fn default() -> (res: LogOutput)
        ensures
            res == LogOutput::Stdout,
    {
        LogOutput::Stdout
    }
}

/// What writes the logs.
#[derive(Debug, Clone, Copy, PartialEq, Eq, Structural)]
pub enum LogLayer {
    /// Stdout.
    Stdout {
        /// Whether timestamps are written.
        timestamps: bool,
    },

    /// Journald.
    Journald,

    /// Files, with timestamps. They are written in the background, so what is yet to be written has
    /// to be flushed in the end.
    File,
}

impl LogOutput {
    /// Whether logs are left to be flushed in the end, because they are written in the background.
    pub open spec fn spec_leaves_logs_to_flush(&self) -> bool {
        *self == LogOutput::File
    }

    /// Whether logs are left to be flushed in the end, because they are written in the background.
    #[verifier::when_used_as_spec(spec_leaves_logs_to_flush)]
    pub fn leaves_logs_to_flush(&self) -> (res: bool)
        ensures
            res == self.spec_leaves_logs_to_flush(),
    {
        match self {
            LogOutput::File => true,
            _ => false,
        }
    }

    /// What writes the logs, if they are written at all.
    pub open spec fn spec_layer(&self) -> Option<LogLayer> {
        match *self {
            LogOutput::Stdout => Some(LogLayer::Stdout { timestamps: true }),
            LogOutput::StdoutNoTimestamp => Some(LogLayer::Stdout { timestamps: false }),
            LogOutput::Journald => Some(LogLayer::Journald),
            LogOutput::File => Some(LogLayer::File),
            LogOutput::Disabled => None,
        }
    }

    /// What writes the logs, if they are written at all.
    pub fn layer(&self) -> (res: Option<LogLayer>)
        ensures
            res == match *self {
                LogOutput::Stdout => Some(LogLayer::Stdout { timestamps: true }),
                LogOutput::StdoutNoTimestamp => Some(LogLayer::Stdout { timestamps: false }),
                LogOutput::Journald => Some(LogLayer::Journald),
                LogOutput::File => Some(LogLayer::File),
                LogOutput::Disabled => None,
            },
            res == self.spec_layer(),
    {
        match self {
            LogOutput::Stdout => Some(LogLayer::Stdout { timestamps: true }),
            LogOutput::StdoutNoTimestamp => Some(LogLayer::Stdout { timestamps: false }),
            LogOutput::Journald => Some(LogLayer::Journald),
            LogOutput::File => Some(LogLayer::File),
            LogOutput::Disabled => None,
        }
    }
}

/// The error type of parsing a filter directive.
#[verifier::external_type_specification]
#[verifier::external_body]
pub struct ExDirectiveError(tracing_subscriber::filter::ParseError);

/// How the directive that `tracing_subscriber::filter::Directive::from_str` reads from `text` is
/// written, if it is one.
pub uninterp spec fn parsed_directive(text: Seq<char>) -> Option<Seq<char>>;

/// Whether `c` is white space.
pub open spec fn is_white_space(c: char) -> bool {
    ||| '\u{9}' <= c <= '\u{d}'
    ||| c == '\u{20}'
    ||| c == '\u{85}'
    ||| c == '\u{a0}'
    ||| c == '\u{1680}'
    ||| '\u{2000}' <= c <= '\u{200a}'
    ||| c == '\u{2028}'
    ||| c == '\u{2029}'
    ||| c == '\u{202f}'
    ||| c == '\u{205f}'
    ||| c == '\u{3000}'
}

/// The number of characters of white space that `text` begins with.
pub open spec fn leading_white_space(text: Seq<char>) -> nat
    decreases text.len(),
{
    if text.len() > 0 && is_white_space(text[0]) {
        1 + leading_white_space(text.skip(1))
    } else {
        0
    }
}

/// Whether a character begins at `i` in the UTF-8 `bytes`, or they end there.
pub open spec fn is_boundary(bytes: Seq<u8>, i: int) -> bool {
    i == bytes.len() || !is_continuation_byte(bytes[i])
}

/// How far a directive was read, byte by byte.
///
/// A part that is cut out in the end knows whether it begins where a character does.
#[derive(Debug, Clone, Copy, PartialEq, Eq, Structural)]
pub enum Reading {
    /// Nothing was read.
    Start,

    /// The target, or a level alone.
    Target,

    /// The name of a span, after `[`.
    Span {
        /// Whether a character begins where the part does.
        sound: bool,
    },

    /// A field, after `{` or `,`.
    Field {
        /// Whether a character begins where the part does.
        sound: bool,

        /// Whether nothing of the field was read.
        empty: bool,
    },

    /// What follows the fields, after `}`.
    AfterFields,

    /// What follows the span, after `]`.
    AfterSpan,

    /// The level, after `=`.
    Level {
        /// Whether a character begins where the part does.
        sound: bool,
    },

    /// It is determined whether the text is a directive.
    Over,
}

impl Reading {
    /// Whether a target may begin with `byte`. Of bytes that are not ASCII this is taken to be so.
    pub open spec fn begins_target(byte: u8) -> bool {
        ||| byte >= 0x80
        ||| 0x30 <= byte <= 0x39
        ||| 0x41 <= byte <= 0x5a
        ||| 0x61 <= byte <= 0x7a
        ||| byte == 0x2d
        ||| byte == 0x3a
        ||| byte == 0x5f
    }

    /// How far the directive was read after `byte`, and whether what is cut out there can be.
    ///
    /// `here` is whether a character begins where the byte is looked for, and `next` whether one
    /// begins after it.
    pub open spec fn after(self, byte: u8, here: bool, next: bool) -> (Reading, bool) {
        match self {
            Reading::Start => if byte == 0x5b {
                (Reading::Span { sound: next }, true)
            } else if Reading::begins_target(byte) {
                (Reading::Target, true)
            } else {
                (Reading::Over, true)
            },
            Reading::Target => if byte == 0x3d {
                (Reading::Level { sound: next }, here)
            } else if byte == 0x5b {
                (Reading::Span { sound: next }, here)
            } else if byte == 0x2c {
                (Reading::Over, true)
            } else {
                (self, true)
            },
            Reading::Span { sound } => if byte == 0x5d {
                (Reading::AfterSpan, sound && here)
            } else if byte == 0x7b {
                (Reading::Field { sound: next, empty: true }, sound && here)
            } else {
                (self, true)
            },
            Reading::Field { sound, empty } => if byte != 0x7d && byte != 0x2c {
                (Reading::Field { sound, empty: false }, true)
            } else if empty {
                (Reading::Over, sound && here)
            } else if byte == 0x7d {
                (Reading::AfterFields, sound && here)
            } else {
                (Reading::Field { sound: next, empty: true }, sound && here)
            },
            Reading::AfterFields => if byte == 0x5d {
                (Reading::AfterSpan, true)
            } else {
                (Reading::Over, true)
            },
            Reading::AfterSpan => if byte == 0x3d {
                (Reading::Level { sound: next }, true)
            } else {
                (Reading::Over, true)
            },
            Reading::Level { sound } => if byte == 0x2c {
                (Reading::Over, sound && here)
            } else {
                (self, true)
            },
            Reading::Over => (Reading::Over, true),
        }
    }

    /// Whether what is cut out where the text ends can be.
    pub open spec fn can_end(self) -> bool {
        self matches Reading::Level { sound } ==> sound
    }

    /// Whether the part that is being read, if it is one that is cut out, begins where a character
    /// does.
    spec fn is_sound(self) -> bool {
        match self {
            Reading::Span { sound } | Reading::Field { sound, .. } | Reading::Level { sound } =>
                sound,
            _ => true,
        }
    }

    fn read(self, byte: u8, here: bool, next: bool) -> (res: (Reading, bool))
        ensures
            res == self.after(byte, here, next),
    {
        match self {
            Reading::Start => {
                if byte == 0x5b {
                    (Reading::Span { sound: next }, true)
                } else if byte >= 0x80 || (0x30 <= byte && byte <= 0x39) || (0x41 <= byte && byte
                    <= 0x5a) || (0x61 <= byte && byte <= 0x7a) || byte == 0x2d || byte == 0x3a
                    || byte == 0x5f {
                    (Reading::Target, true)
                } else {
                    (Reading::Over, true)
                }
            },
            Reading::Target => match byte {
                0x3d => (Reading::Level { sound: next }, here),
                0x5b => (Reading::Span { sound: next }, here),
                0x2c => (Reading::Over, true),
                _ => (self, true),
            },
            Reading::Span { sound } => match byte {
                0x5d => (Reading::AfterSpan, sound && here),
                0x7b => (Reading::Field { sound: next, empty: true }, sound && here),
                _ => (self, true),
            },
            Reading::Field { sound, empty } => {
                if byte != 0x7d && byte != 0x2c {
                    return (Reading::Field { sound, empty: false }, true);
                }
                let after = if empty {
                    Reading::Over
                } else if byte == 0x7d {
                    Reading::AfterFields
                } else {
                    Reading::Field { sound: next, empty: true }
                };
                (after, sound && here)
            },
            Reading::AfterFields => match byte {
                0x5d => (Reading::AfterSpan, true),
                _ => (Reading::Over, true),
            },
            Reading::AfterSpan => match byte {
                0x3d => (Reading::Level { sound: next }, true),
                _ => (Reading::Over, true),
            },
            Reading::Level { sound } => match byte {
                0x2c => (Reading::Over, sound && here),
                _ => (self, true),
            },
            Reading::Over => (Reading::Over, true),
        }
    }
}

/// Whether the parts of a directive that are in `bytes` from `i` on can be cut out, at positions that
/// are `shift` too small.
pub open spec fn can_be_cut(bytes: Seq<u8>, shift: int, i: int, reading: Reading) -> bool
    decreases bytes.len() - i,
{
    if i < bytes.len() {
        let (next, possible) = reading.after(
            bytes[i],
            is_boundary(bytes, i - shift),
            is_boundary(bytes, i - shift + 1),
        );
        possible && can_be_cut(bytes, shift, i + 1, next)
    } else {
        reading.can_end()
    }
}

/// Whether `text` can be parsed as a directive. Its parts are looked for without the white space
/// that it begins with, but cut out of it as it is. Where characters of more than one byte follow,
/// there may be no character to cut before.
pub open spec fn is_parseable(text: Seq<char>) -> bool {
    let shift = encode_utf8(text.take(leading_white_space(text) as int)).len() as int;
    can_be_cut(encode_utf8(text), shift, shift, Reading::Start)
}

/// In UTF-8 a character begins after one of a single byte.
proof fn lemma_boundary_after_ascii(bytes: Seq<u8>, i: int)
    requires
        valid_utf8(bytes),
        0 <= i < bytes.len(),
        bytes[i] < 0x80,
    ensures
        is_boundary(bytes, i + 1),
{
    is_char_boundary_iff_not_is_continuation_byte(bytes, i);
    valid_utf8_split(bytes, i);
    let rest = bytes.subrange(i, bytes.len() as int);
    reveal_with_fuel(valid_utf8, 2);
    assert(valid_utf8(rest));
    assert(rest[0] == bytes[i]);
    assert(pop_first_scalar(rest) =~= bytes.subrange(i + 1, bytes.len() as int));
    if i + 1 < bytes.len() {
        assert(valid_first_scalar(pop_first_scalar(rest)));
        assert(pop_first_scalar(rest)[0] == bytes[i + 1]);
    }
}

proof fn lemma_can_be_cut(bytes: Seq<u8>, shift: int, i: int, reading: Reading)
    requires
        shift <= i,
        reading.is_sound(),
        forall|j: int|
            shift <= j < bytes.len() && #[trigger] bytes[j] < 0x80 ==> is_boundary(bytes, j - shift)
                && is_boundary(bytes, j - shift + 1),
    ensures
        can_be_cut(bytes, shift, i, reading),
    decreases bytes.len() - i,
{
    if i < bytes.len() {
        let (next, possible) = reading.after(
            bytes[i],
            is_boundary(bytes, i - shift),
            is_boundary(bytes, i - shift + 1),
        );
        lemma_can_be_cut(bytes, shift, i + 1, next);
    }
}

/// Text that is ASCII or does not begin with white space can be parsed.
pub proof fn text_without_leading_white_space_is_parseable(text: Seq<char>)
    requires
        is_ascii_chars(text) || !is_white_space(text[0]),
    ensures
        is_parseable(text),
{
    let bytes = encode_utf8(text);
    let shift = encode_utf8(text.take(leading_white_space(text) as int)).len() as int;
    encode_utf8_valid_utf8(text);
    if is_ascii_chars(text) {
        is_ascii_chars_encode_utf8(text);
        assert forall|i: int| 0 <= i < bytes.len() implies (#[trigger] bytes[i]) < 0x80 by {
            assert(bytes[i] == text[i] as u8);
            assert((text[i] as nat) < 128);
        }
    } else {
        assert(text.take(0) =~= Seq::<char>::empty());
        assert(shift == 0);
        assert forall|i: int| shift <= i < bytes.len() && #[trigger] bytes[i] < 0x80 implies
            is_boundary(bytes, i - shift) && is_boundary(bytes, i - shift + 1) by {
            lemma_boundary_after_ascii(bytes, i);
        }
    }
    lemma_can_be_cut(bytes, shift, shift, Reading::Start);
}

/// Read a filter directive and write it again.
///
/// Calls `tracing_subscriber::filter::Directive::from_str`, which depends on the text alone. It
/// takes positions in the trimmed text for positions in the text itself, and panics where it cuts a
/// part out and no character of the text itself begins at one of its ends. That does not happen
/// here, not even if it went on where it refuses a first character that is neither ASCII nor
/// alphanumeric, or the pattern of a field. How a directive that is read is written by its `Display`
/// is not spelled out here.
#[verifier::external_body]
fn read_directive(text: &str) -> (res: Result<String, tracing_subscriber::filter::ParseError>)
    requires
        is_parseable(text@),
    ensures
        match res {
            Ok(written) => parsed_directive(text@) == Some(written@),
            Err(_) => parsed_directive(text@) is None,
        },
{
    tracing_subscriber::filter::Directive::from_str(text).map(|directive| directive.to_string())
}

/// The filter of logs.
#[verifier::external_type_specification]
#[verifier::external_body]
pub struct ExEnvFilter(tracing_subscriber::EnvFilter);

/// The directives that a filter holds, as their `Display` writes them.
pub uninterp spec fn filter_directives(filter: tracing_subscriber::EnvFilter) -> Set<Seq<char>>;

/// What a directive applies to, written up to the sign before its level.
pub open spec fn selector(written: Seq<char>) -> Seq<char>
    decreases written.len(),
{
    if written.len() == 0 || written.last() == '=' {
        written
    } else {
        selector(written.drop_last())
    }
}

/// Whether a field may be matched against a negative zero: whether `=-0` occurs in `written`.
pub open spec fn has_signed_zero(written: Seq<char>) -> bool {
    exists|i: int| #[trigger]
        signed_zero_at(written, i)
}

/// Whether `=-0` occurs in `written` at `i`.
pub open spec fn signed_zero_at(written: Seq<char>, i: int) -> bool {
    0 <= i <= written.len() - 3 && written[i] == '=' && written[i + 1] == '-' && written[i + 2]
        == '0'
}

/// Make a filter without directives.
///
/// Calls `tracing_subscriber::EnvFilter::default`, which holds no directives.
#[verifier::external_body]
fn empty_filter() -> (res: tracing_subscriber::EnvFilter)
    ensures
        filter_directives(res) == Set::<Seq<char>>::empty(),
{
    tracing_subscriber::EnvFilter::default()
}

/// Add a directive to a filter.
///
/// Calls `tracing_subscriber::EnvFilter::add_directive`. The filter then holds the directive and
/// nothing else that it did not hold before. A directive that applies to something else stays. This
/// is not said if one of the two matches a field against a negative zero, which is written
/// differently from zero but is equal to it.
#[verifier::external_body]
fn add_directive(
    filter: tracing_subscriber::EnvFilter,
    text: &str,
) -> (res: tracing_subscriber::EnvFilter)
    requires
        is_parseable(text@),
        parsed_directive(text@) is Some,
    ensures
        filter_directives(res).contains(parsed_directive(text@)->0),
        forall|written: Seq<char>|
            filter_directives(res).contains(written) ==> written == parsed_directive(text@)->0
                || filter_directives(filter).contains(written),
        forall|written: Seq<char>|
            filter_directives(filter).contains(written) && !has_signed_zero(written)
                && !has_signed_zero(parsed_directive(text@)->0) && selector(written) != selector(
                parsed_directive(text@)->0,
            ) ==> #[trigger] filter_directives(res).contains(written),
{
    let directive = tracing_subscriber::filter::Directive::from_str(text);
    filter.add_directive(directive.expect("a filter directive"))
}

/// Count the characters of white space that `text` begins with.
fn count_leading_white_space(text: &str) -> (res: usize)
    ensures
        res == leading_white_space(text@),
        res <= text@.len(),
{
    let n = text.unicode_len();
    let mut i: usize = 0;
    assert(text@.skip(0) =~= text@);
    while i < n
        invariant
            n == text@.len(),
            i <= n,
            leading_white_space(text@) == i + leading_white_space(text@.skip(i as int)),
        decreases n - i,
    {
        let c = text.get_char(i);
        let white = ('\u{9}' <= c && c <= '\u{d}') || c == '\u{20}' || c == '\u{85}' || c == '\u{a0}'
            || c == '\u{1680}' || ('\u{2000}' <= c && c <= '\u{200a}') || c == '\u{2028}' || c
            == '\u{2029}' || c == '\u{202f}' || c == '\u{205f}' || c == '\u{3000}';
        assert(text@.skip(i as int)[0] == c);
        assert(text@.skip(i as int).skip(1) =~= text@.skip(i + 1));
        if !white {
            return i;
        }
        i += 1;
    }
    i
}

fn boundary_at(bytes: &Vec<u8>, i: usize) -> (res: bool)
    requires
        i <= bytes@.len(),
    ensures
        res == is_boundary(bytes@, i as int),
{
    i == bytes.len() || bytes[i] < 0x80 || bytes[i] > 0xbf
}

/// Determine whether the parts of a directive can be cut out of `bytes`, at positions that are
/// `shift` too small.
fn check_cuts(bytes: &Vec<u8>, shift: usize) -> (res: bool)
    ensures
        res == can_be_cut(bytes@, shift as int, shift as int, Reading::Start),
{
    let mut reading = Reading::Start;
    let mut i = shift;
    while i < bytes.len()
        invariant
            shift <= i,
            can_be_cut(bytes@, shift as int, shift as int, Reading::Start) == can_be_cut(
                bytes@,
                shift as int,
                i as int,
                reading,
            ),
        decreases bytes@.len() - i,
    {
        let at = i - shift;
        let (next, possible) = reading.read(
            bytes[i],
            boundary_at(bytes, at),
            boundary_at(bytes, at + 1),
        );
        if !possible {
            return false;
        }
        reading = next;
        i += 1;
    }
    match reading {
        Reading::Level { sound } => sound,
        _ => true,
    }
}

/// Determine whether `text` can be parsed as a directive.
fn can_parse(text: &str) -> (res: bool)
    ensures
        res == is_parseable(text@),
{
    let leading = count_leading_white_space(text);
    let white = text.substring_char(0, leading);
    assert(white@ =~= text@.take(leading as int));
    let bytes = text.as_bytes_vec();
    check_cuts(&bytes, white.as_bytes_vec().len())
}

/// Error returned when a text is not a filter directive.
#[derive(Debug)]
pub enum DirectiveError {
    /// The text begins with white space and goes on so that it cannot be parsed.
    Unparseable,

    /// The text is not a filter directive.
    Invalid(tracing_subscriber::filter::ParseError),
}

impl DirectiveError {
    /// Describe the error, if it does not describe itself.
    pub fn message(&self) -> (res: Option<&'static str>)
        ensures
            match *self {
                DirectiveError::Unparseable => res matches Some(text) && text@
                    == "invalid filter directive"@,
                DirectiveError::Invalid(_) => res is None,
            },
    {
        match self {
            DirectiveError::Unparseable => Some("invalid filter directive"),
            DirectiveError::Invalid(_) => None,
        }
    }
}

/// A filter directive, as it was given.
#[derive(Debug)]
pub struct LogDirective {
    text: String,
}

impl View for LogDirective {
    type V = Seq<char>;

    closed spec fn view(&self) -> Seq<char> {
        self.text@
    }
}

impl LogDirective {
    /// How the directive is written.
    pub open spec fn written(self) -> Seq<char> {
        parsed_directive(self@)->0
    }

    #[verifier::type_invariant]
    spec fn is_read(self) -> bool {
        is_parseable(self.text@) && parsed_directive(self.text@) is Some
    }

    /// Read a filter directive.
    ///
    /// # Errors
    ///
    /// Returns an error if `text` is not a filter directive.
    pub fn from_str(text: &str) -> (res: Result<
        LogDirective,
        tracing_subscriber::filter::ParseError,
    >)
        requires
            is_parseable(text@),
        ensures
            res is Ok <==> parsed_directive(text@) is Some,
            res matches Ok(directive) ==> directive@ == text@,
    {
        match read_directive(text) {
            Ok(_) => Ok(LogDirective { text: text.to_string() }),
            Err(error) => Err(error),
        }
    }

    /// Read a filter directive from any text.
    ///
    /// # Errors
    ///
    /// Returns an error if `text` cannot be parsed or is not a filter directive.
    pub fn parse(text: &str) -> (res: Result<LogDirective, DirectiveError>)
        ensures
            match res {
                Ok(directive) => is_parseable(text@) && parsed_directive(text@) is Some
                    && directive@ == text@,
                Err(DirectiveError::Unparseable) => !is_parseable(text@),
                Err(DirectiveError::Invalid(_)) => is_parseable(text@) && parsed_directive(
                    text@,
                ) is None,
            },
    {
        if !can_parse(text) {
            return Err(DirectiveError::Unparseable);
        }
        match LogDirective::from_str(text) {
            Ok(directive) => Ok(directive),
            Err(error) => Err(DirectiveError::Invalid(error)),
        }
    }

    /// The directive as it was given.
    pub fn as_str(&self) -> (res: &str)
        ensures
            res@ == self@,
    {
        self.text.as_str()
    }
}

/// Whether `directive` may take the place of one that is written `written`: it applies to the same,
/// or it matches a field against a negative zero.
pub open spec fn may_replace(directive: LogDirective, written: Seq<char>) -> bool {
    selector(directive.written()) == selector(written) || has_signed_zero(directive.written())
}

/// Whether none of `directives` from the `i`th on may take the place of one that is written
/// `written`.
pub open spec fn is_not_replaced(
    directives: Seq<LogDirective>,
    i: int,
    written: Seq<char>,
) -> bool {
    forall|j: int| i <= j < directives.len() ==> !may_replace(#[trigger] directives[j], written)
}

/// Whether a filter that holds `held` was given `directives`: it holds nothing but them, each that a
/// later one does not take the place of, and the last in any case. Of directives which match a field
/// against a negative zero only the last is known to be held.
pub open spec fn filters_by(held: Set<Seq<char>>, directives: Seq<LogDirective>) -> bool {
    &&& forall|written: Seq<char>| #[trigger]
        held.contains(written) ==> exists|i: int|
            0 <= i < directives.len() && #[trigger] directives[i].written() == written
    &&& forall|i: int|
        0 <= i < directives.len() && !has_signed_zero(#[trigger] directives[i].written())
            && is_not_replaced(directives, i + 1, directives[i].written()) ==> held.contains(
            directives[i].written(),
        )
    &&& directives.len() > 0 ==> held.contains(directives.last().written())
}

proof fn lemma_directive_added(
    before: Set<Seq<char>>,
    after: Set<Seq<char>>,
    directives: Seq<LogDirective>,
    added: LogDirective,
)
    requires
        filters_by(before, directives),
        after.contains(added.written()),
        forall|written: Seq<char>| #[trigger]
            after.contains(written) ==> written == added.written() || before.contains(written),
        forall|written: Seq<char>|
            before.contains(written) && !has_signed_zero(written) && !has_signed_zero(
                added.written(),
            ) && selector(written) != selector(added.written()) ==> #[trigger] after.contains(
                written,
            ),
    ensures
        filters_by(after, directives.push(added)),
{
    let all = directives.push(added);
    let n = directives.len() as int;
    assert forall|written: Seq<char>| #[trigger] after.contains(written) implies exists|i: int|
        0 <= i < all.len() && #[trigger] all[i].written() == written by {
        if written == added.written() {
            assert(all[n].written() == written);
        } else {
            let i = choose|i: int|
                0 <= i < directives.len() && #[trigger] directives[i].written() == written;
            assert(all[i].written() == written);
        }
    }
    assert forall|i: int|
        0 <= i < all.len() && !has_signed_zero(#[trigger] all[i].written()) && is_not_replaced(
            all,
            i + 1,
            all[i].written(),
        ) implies after.contains(all[i].written()) by {
        if i < n {
            let written = directives[i].written();
            assert(all[i] == directives[i]);
            assert(!may_replace(all[n], written));
            assert forall|j: int| i + 1 <= j < n implies !may_replace(
                #[trigger] directives[j],
                written,
            ) by {
                assert(all[j] == directives[j]);
            }
            assert(is_not_replaced(directives, i + 1, written));
            assert(before.contains(written));
        }
    }
    assert(all.last() == added);
}

/// Logging configuration. The `[log]` section in a config file.
#[derive(Debug)]
pub struct LogConfig {
    /// Where logs should be written to.
    pub output: LogOutput,

    /// Filter what is logged, in the order in which the directives are given.
    pub directives: Vec<LogDirective>,

    /// Path to the directory to store the rolling log files in for the `file` log output mode.
    pub file_directory: Option<FsPath>,

    /// Number of log files to keep.
    pub max_log_files: usize,
}

/// Beginning of the names of log files.
pub const LOG_FILE_PREFIX: &'static str = "novelnote";

/// End of the names of log files.
pub const LOG_FILE_SUFFIX: &'static str = "log";

impl LogConfig {
    /// The directory of the log files: the state directory, or the data directory where there is no
    /// such thing, unless one is configured.
    pub open spec fn directory_in(self, dirs: ProjectDirs) -> Seq<u8> {
        match (self.file_directory, dirs.state_dir) {
            (Some(directory), _) => directory@,
            (None, Some(state_dir)) => state_dir@,
            (None, None) => dirs.data_dir@,
        }
    }

    /// Get the set directory of the log files or the default.
    pub fn directory<'a>(&'a self, dirs: &'a ProjectDirs) -> (res: &'a FsPath)
        ensures
            res@ == self.directory_in(*dirs),
            self.file_directory matches Some(directory) ==> res@ == directory@,
    {
        match (&self.file_directory, &dirs.state_dir) {
            (Some(directory), _) => directory,
            (None, Some(state_dir)) => state_dir,
            (None, None) => &dirs.data_dir,
        }
    }

    /// The filter of logs, by the directives in the order in which they are given.
    pub fn env_filter(&self) -> (res: tracing_subscriber::EnvFilter)
        ensures
            filters_by(filter_directives(res), self.directives@),
    {
        let mut filter = empty_filter();
        let mut n: usize = 0;
        while n < self.directives.len()
            invariant
                n <= self.directives@.len(),
                filters_by(filter_directives(filter), self.directives@.take(n as int)),
            decreases self.directives@.len() - n,
        {
            let directive = &self.directives[n];
            proof {
                use_type_invariant(directive);
            }
            let ghost before = filter_directives(filter);
            filter = add_directive(filter, directive.as_str());
            proof {
                lemma_directive_added(
                    before,
                    filter_directives(filter),
                    self.directives@.take(n as int),
                    *directive,
                );
                assert(self.directives@.take(n as int).push(*directive) =~= self.directives@.take(
                    n + 1,
                ));
            }
            n += 1;
        }
        assert(self.directives@.take(n as int) =~= self.directives@);
        filter
    }

    /// Begin to initialize logging.
    pub fn init_logging(&self) -> (res: (LogInit, LogStep))
        ensures
            res == LogInit::begin(self.output),
    {
        match self.output {
            LogOutput::Journald => (LogInit::ConnectingJournald, LogStep::ConnectJournald),
            LogOutput::File => (LogInit::CheckingDirectory, LogStep::CheckDirectory),
            LogOutput::Stdout | LogOutput::StdoutNoTimestamp | LogOutput::Disabled => (
                LogInit::Installing(LogReady { created: false, logs_to_flush: false }),
                LogStep::Install,
            ),
        }
    }
}

/// A directory of the log files that is configured is the one that is used, wherever the project's
/// directories are. Only if none is, it is the state directory, or the data directory where there is
/// no state directory.
pub proof fn configured_log_directory_is_used(config: LogConfig, dirs: ProjectDirs)
    ensures
        config.file_directory matches Some(directory) ==> config.directory_in(dirs) == directory@,
        config.file_directory is None ==> (dirs.state_dir matches Some(directory)
            ==> config.directory_in(dirs) == directory@),
        config.file_directory is None && dirs.state_dir is None ==> config.directory_in(dirs)
            == dirs.data_dir@,
{
}

/// A filter that was given directives holds the last of them. It holds each of them whose place no
/// later one takes, that is, to which no later one is written with the same selector, if none of
/// them matches a field against a negative zero. And it holds nothing that it was not given.
pub proof fn filter_holds_what_it_was_given(
    held: Set<Seq<char>>,
    directives: Seq<LogDirective>,
    i: int,
    stranger: Seq<char>,
)
    requires
        filters_by(held, directives),
        0 <= i < directives.len(),
        forall|j: int| 0 <= j < directives.len() ==> stranger != #[trigger] directives[j].written(),
    ensures
        held.contains(directives[directives.len() - 1].written()),
        !held.contains(stranger),
        (forall|j: int|
            0 <= j < directives.len() ==> !has_signed_zero(#[trigger] directives[j].written())) && (
        forall|j: int|
            i < j < directives.len() ==> selector(directives[i].written()) != selector(
                #[trigger] directives[j].written(),
            )) ==> held.contains(directives[i].written()),
{
    let written = directives[i].written();
    if (forall|j: int|
        0 <= j < directives.len() ==> !has_signed_zero(#[trigger] directives[j].written())) && (
    forall|j: int|
        i < j < directives.len() ==> selector(written) != selector(
            #[trigger] directives[j].written(),
        )) {
        assert forall|j: int| i + 1 <= j < directives.len() implies !may_replace(
            #[trigger] directives[j],
            written,
        ) by {
            assert(selector(written) != selector(directives[j].written()));
            assert(!has_signed_zero(directives[j].written()));
        }
        assert(is_not_replaced(directives, i + 1, written));
    }
}

/// How far the initialization of logging has come.
#[derive(Debug, Clone, Copy, PartialEq, Eq, Structural)]
pub enum LogInit {
    /// A connection to journald is established.
    ConnectingJournald,

    /// It is looked up whether the directory of the log files exists.
    CheckingDirectory,

    /// The directory of the log files is created.
    CreatingDirectory,

    /// The log files are opened.
    OpeningFiles {
        /// Whether their directory was created.
        created: bool,
    },

    /// What writes the logs is installed, with the filter, for the whole process.
    Installing(LogReady),

    /// Logging is initialized, or something failed.
    Finished,
}

/// What is to be known once logging is initialized.
#[derive(Debug, Clone, Copy, PartialEq, Eq, Structural)]
pub struct LogReady {
    /// Whether the directory of the log files was created.
    pub created: bool,

    /// Whether logs are left to be flushed in the end.
    pub logs_to_flush: bool,
}

/// What to do next to initialize logging.
#[derive(Debug, Clone, Copy, PartialEq, Eq)]
pub enum LogStep {
    /// Connect to journald.
    ConnectJournald,

    /// Look up whether the directory of the log files exists.
    CheckDirectory,

    /// Create the directory of the log files, with all that lead to it.
    CreateDirectory,

    /// Open the log files.
    OpenFiles,

    /// Install what writes the logs, with the filter, for the whole process.
    Install,

    /// Stop, with this result.
    Finish(Result<LogReady, LogError>),

    /// Nothing, the initialization was finished before.
    Idle,
}

/// Error returned when logging cannot be initialized.
#[derive(Debug, Clone, Copy, PartialEq, Eq, Structural)]
pub enum LogError {
    /// A connection to journald cannot be established.
    Journald,

    /// The directory of the log files cannot be created.
    CreateDirectory,

    /// The log files cannot be opened.
    OpenFiles,

    /// There is something installed already.
    Install,
}

impl LogError {
    /// Describe the error, given the directory of the log files.
    pub fn message(&self, directory: &FsPath, platform: Platform) -> (res: String)
        ensures
            res@ == match *self {
                LogError::Journald => "error connecting to journald socket"@,
                LogError::CreateDirectory => "error creating log file directory `"@ + shown(
                    directory@,
                    platform,
                ) + "`"@,
                LogError::OpenFiles => "error initializing log file appender"@,
                LogError::Install => "error initializing tracing subscriber"@,
            },
    {
        match self {
            LogError::Journald => "error connecting to journald socket".to_string(),
            LogError::CreateDirectory => concat3(
                "error creating log file directory `",
                directory.display(platform).as_str(),
                "`",
            ),
            LogError::OpenFiles => "error initializing log file appender".to_string(),
            LogError::Install => "error initializing tracing subscriber".to_string(),
        }
    }
}

impl Machine for LogInit {
    type Input = bool;

    type Output = LogStep;

    open spec fn next(self, input: bool) -> (LogInit, LogStep) {
        match (self, input) {
            (LogInit::CheckingDirectory, false) => (
                LogInit::CreatingDirectory,
                LogStep::CreateDirectory,
            ),
            (LogInit::CheckingDirectory, true) => (
                LogInit::OpeningFiles { created: false },
                LogStep::OpenFiles,
            ),
            (LogInit::CreatingDirectory, true) => (
                LogInit::OpeningFiles { created: true },
                LogStep::OpenFiles,
            ),
            (LogInit::CreatingDirectory, false) => (
                LogInit::Finished,
                LogStep::Finish(Err(LogError::CreateDirectory)),
            ),
            (LogInit::OpeningFiles { created }, true) => (
                LogInit::Installing(LogReady { created, logs_to_flush: true }),
                LogStep::Install,
            ),
            (LogInit::OpeningFiles { .. }, false) => (
                LogInit::Finished,
                LogStep::Finish(Err(LogError::OpenFiles)),
            ),
            (LogInit::ConnectingJournald, true) => (
                LogInit::Installing(LogReady { created: false, logs_to_flush: false }),
                LogStep::Install,
            ),
            (LogInit::ConnectingJournald, false) => (
                LogInit::Finished,
                LogStep::Finish(Err(LogError::Journald)),
            ),
            (LogInit::Installing(ready), true) => (
                LogInit::Finished,
                LogStep::Finish(Ok(ready)),
            ),
            (LogInit::Installing(_), false) => (
                LogInit::Finished,
                LogStep::Finish(Err(LogError::Install)),
            ),
            (LogInit::Finished, _) => (LogInit::Finished, LogStep::Idle),
        }
    }
}

impl LogInit {
    /// How the initialization begins.
    pub open spec fn begin(output: LogOutput) -> (LogInit, LogStep) {
        match output {
            LogOutput::Journald => (LogInit::ConnectingJournald, LogStep::ConnectJournald),
            LogOutput::File => (LogInit::CheckingDirectory, LogStep::CheckDirectory),
            _ => (
                LogInit::Installing(LogReady { created: false, logs_to_flush: false }),
                LogStep::Install,
            ),
        }
    }

    /// Take in the answer to the last step and determine what to do next.
    ///
    /// The answer is whether the directory exists or whether what was asked for succeeded.
    pub fn step(&mut self, answer: bool) -> (res: LogStep)
        ensures
            (*final(self), res) == old(self).next(answer),
    {
        if !answer {
            return self.step_no();
        }
        match *self {
            LogInit::CheckingDirectory => {
                *self = LogInit::OpeningFiles { created: false };
                LogStep::OpenFiles
            },
            LogInit::CreatingDirectory => {
                *self = LogInit::OpeningFiles { created: true };
                LogStep::OpenFiles
            },
            LogInit::OpeningFiles { created } => {
                *self = LogInit::Installing(LogReady { created, logs_to_flush: true });
                LogStep::Install
            },
            LogInit::ConnectingJournald => {
                *self = LogInit::Installing(LogReady { created: false, logs_to_flush: false });
                LogStep::Install
            },
            LogInit::Installing(ready) => {
                *self = LogInit::Finished;
                LogStep::Finish(Ok(ready))
            },
            LogInit::Finished => LogStep::Idle,
        }
    }

    fn step_no(&mut self) -> (res: LogStep)
        ensures
            (*final(self), res) == old(self).next(false),
    {
        let error = match *self {
            LogInit::CheckingDirectory => {
                *self = LogInit::CreatingDirectory;
                return LogStep::CreateDirectory;
            },
            LogInit::CreatingDirectory => LogError::CreateDirectory,
            LogInit::OpeningFiles { .. } => LogError::OpenFiles,
            LogInit::ConnectingJournald => LogError::Journald,
            LogInit::Installing(_) => LogError::Install,
            LogInit::Finished => {
                return LogStep::Idle;
            },
        };
        *self = LogInit::Finished;
        LogStep::Finish(Err(error))
    }
}

proof fn lemma_finished_after_four(output: LogOutput, answers: Seq<bool>)
    requires
        answers.len() >= 4,
    ensures
        state_after(LogInit::begin(output).0, answers) == LogInit::Finished,
    decreases answers.len(),
{
    reveal_with_fuel(state_after, 5);
    if answers.len() > 4 {
        lemma_finished_after_four(output, answers.drop_last());
    }
}

/// Whether logging is initialized on `answers`, with `ready` to be known: nothing fails, the directory
/// of the log files is created on the way if it is missing, and logs are left to be flushed if they
/// are written to files.
pub open spec fn initializes(output: LogOutput, answers: Seq<bool>, ready: LogReady) -> bool {
    &&& ready.logs_to_flush == output.leaves_logs_to_flush()
    &&& match output {
        LogOutput::File => if ready.created {
            answers == seq![false, true, true, true]
        } else {
            answers == seq![true, true, true]
        },
        LogOutput::Journald => !ready.created && answers == seq![true, true],
        _ => !ready.created && answers == seq![true],
    }
}

/// Logging is initialized if and only if nothing fails, after the directory of the log files was
/// created if they are needed and it was missing. Logs are then left to be flushed if and only if
/// they are written to files.
pub proof fn logging_is_initialized_when_nothing_fails(
    output: LogOutput,
    answers: Seq<bool>,
    ready: LogReady,
)
    requires
        answers.len() > 0,
    ensures
        last_output(LogInit::begin(output).0, answers) == LogStep::Finish(Ok(ready))
            <==> initializes(output, answers, ready),
{
    reveal_with_fuel(state_after, 5);
    if answers.len() > 4 {
        lemma_finished_after_four(output, answers.drop_last());
    } else if answers.len() == 1 {
        assert(answers =~= seq![answers[0]]);
    } else if answers.len() == 2 {
        assert(answers =~= seq![answers[0], answers[1]]);
    } else if answers.len() == 3 {
        assert(answers =~= seq![answers[0], answers[1], answers[2]]);
    } else {
        assert(answers =~= seq![answers[0], answers[1], answers[2], answers[3]]);
    }
}

/// Whether logging is initialized at some point while `answers` are given.
pub open spec fn becomes_initialized(output: LogOutput, answers: Seq<bool>) -> bool {
    exists|n: int|
        0 < n <= answers.len() && (#[trigger] last_output(
            LogInit::begin(output).0,
            answers.take(n),
        ) matches LogStep::Finish(Ok(_)))
}

/// Whether the answer to installing what writes the logs is no, because something is installed
/// already.
pub open spec fn is_refused(output: LogOutput, answers: Seq<bool>) -> bool {
    forall|n: int|
        0 <= n < answers.len() && #[trigger] state_after(
            LogInit::begin(output).0,
            answers.take(n),
        ) is Installing ==> !answers[n]
}

/// Logging is not initialized if something is installed already, whatever the output. If it comes to
/// an end at all, that is with an error.
pub proof fn refused_installation_is_an_error(output: LogOutput, answers: Seq<bool>, n: int)
    requires
        is_refused(output, answers),
        0 < n <= answers.len(),
    ensures
        last_output(LogInit::begin(output).0, answers.take(n)) matches LogStep::Finish(result)
            ==> result is Err,
{
    assert(answers.take(n).drop_last() =~= answers.take(n - 1));
    assert(answers.take(n).last() == answers[n - 1]);
}

/// Logging is initialized at most once in a process: after one initialization, what it installed
/// stays, so that every other is refused and fails. Whether something is installed is a state of the
/// process, so that the refusal is a premise here.
pub proof fn logging_is_not_initialized_again(
    first_output: LogOutput,
    first: Seq<bool>,
    second_output: LogOutput,
    second: Seq<bool>,
)
    requires
        becomes_initialized(first_output, first) ==> is_refused(second_output, second),
    ensures
        !(becomes_initialized(first_output, first) && becomes_initialized(second_output, second)),
{
    if becomes_initialized(first_output, first) && becomes_initialized(second_output, second) {
        let n = choose|n: int|
            0 < n <= second.len() && (#[trigger] last_output(
                LogInit::begin(second_output).0,
                second.take(n),
            ) matches LogStep::Finish(Ok(_)));
        refused_installation_is_an_error(second_output, second, n);
    }
}

/// The directory of the log files is created if and only if logs are written to files and it does
/// not exist.
pub proof fn log_directory_is_created_if_missing(output: LogOutput, answers: Seq<bool>)
    requires
        answers.len() > 0,
    ensures
        last_output(LogInit::begin(output).0, answers) == LogStep::CreateDirectory <==> {
            &&& output == LogOutput::File
            &&& answers == seq![false]
        },
{
    reveal_with_fuel(state_after, 5);
    if answers.len() > 4 {
        lemma_finished_after_four(output, answers.drop_last());
    } else if answers.len() == 1 {
        assert(answers =~= seq![answers[0]]);
    }
}

/// What is asked for to initialize logging, given what was asked for before and the answer. It begins
/// with what the output needs. What fails is what is told.
pub proof fn initialization_follows_its_answers(
    output: LogOutput,
    answers: Seq<bool>,
    answer: bool,
)
    ensures
        LogInit::begin(output).1 == if output == LogOutput::Journald {
            LogStep::ConnectJournald
        } else if output == LogOutput::File {
            LogStep::CheckDirectory
        } else {
            LogStep::Install
        },
        ({
            let next = asked(LogInit::begin(output), answers.push(answer));
            match asked(LogInit::begin(output), answers) {
                LogStep::ConnectJournald => next == if answer {
                    LogStep::Install
                } else {
                    LogStep::Finish(Err(LogError::Journald))
                },
                LogStep::CheckDirectory => next == if answer {
                    LogStep::OpenFiles
                } else {
                    LogStep::CreateDirectory
                },
                LogStep::CreateDirectory => next == if answer {
                    LogStep::OpenFiles
                } else {
                    LogStep::Finish(Err(LogError::CreateDirectory))
                },
                LogStep::OpenFiles => next == if answer {
                    LogStep::Install
                } else {
                    LogStep::Finish(Err(LogError::OpenFiles))
                },
                LogStep::Install => if answer {
                    next matches LogStep::Finish(Ok(_))
                } else {
                    next == LogStep::Finish(Err(LogError::Install))
                },
                LogStep::Finish(_) | LogStep::Idle => next == LogStep::Idle,
            }
        }),
{
    lemma_told_one_more(LogInit::begin(output).0, answers, answer);
}

proof fn lemma_no_cut(bytes: Seq<u8>, shift: int, i: int, reading: Reading)
    requires
        reading == Reading::Start || reading == Reading::Target || reading == Reading::Over,
        forall|j: int|
            i <= j < bytes.len() ==> #[trigger] bytes[j] != 0x3d && bytes[j] != 0x5b,
    ensures
        can_be_cut(bytes, shift, i, reading),
    decreases bytes.len() - i,
{
    if i < bytes.len() {
        let (next, _) = reading.after(
            bytes[i],
            is_boundary(bytes, i - shift),
            is_boundary(bytes, i - shift + 1),
        );
        lemma_no_cut(bytes, shift, i + 1, next);
    }
}

/// Text without `=` and `[` can be parsed, whatever it begins with: nothing is cut out of it.
pub proof fn text_without_parts_is_parseable(text: Seq<char>)
    requires
        forall|i: int|
            0 <= i < encode_utf8(text).len() ==> #[trigger] encode_utf8(text)[i] != 0x3d
                && encode_utf8(text)[i] != 0x5b,
    ensures
        is_parseable(text),
{
    let shift = encode_utf8(text.take(leading_white_space(text) as int)).len() as int;
    lemma_no_cut(encode_utf8(text), shift, shift, Reading::Start);
}

proof fn lemma_target_is_cut(bytes: Seq<u8>, shift: int, i: int, at: int, reading: Reading)
    requires
        0 <= shift <= i <= at < bytes.len(),
        i < at && reading == Reading::Start && Reading::begins_target(bytes[i]) && bytes[i] != 0x5b
            || reading == Reading::Target,
        bytes[at] == 0x3d || bytes[at] == 0x5b,
        forall|j: int|
            i <= j < at ==> #[trigger] bytes[j] != 0x3d && bytes[j] != 0x5b && bytes[j] != 0x2c,
        !is_boundary(bytes, at - shift),
    ensures
        !can_be_cut(bytes, shift, i, reading),
    decreases at - i,
{
    if i < at {
        lemma_target_is_cut(bytes, shift, i + 1, at, Reading::Target);
    }
}

/// Text whose target would be cut in the middle of a character cannot be parsed.
pub proof fn target_is_not_cut_in_a_character(text: Seq<char>, at: int)
    requires
        ({
            let bytes = encode_utf8(text);
            let shift = encode_utf8(text.take(leading_white_space(text) as int)).len() as int;
            &&& shift < at < bytes.len()
            &&& 0x61 <= bytes[shift] <= 0x7a || bytes[shift] >= 0x80
            &&& bytes[at] == 0x3d || bytes[at] == 0x5b
            &&& is_continuation_byte(bytes[at - shift])
            &&& forall|j: int|
                shift <= j < at ==> #[trigger] bytes[j] != 0x3d && bytes[j] != 0x5b && bytes[j]
                    != 0x2c
        }),
    ensures
        !is_parseable(text),
{
    let bytes = encode_utf8(text);
    let shift = encode_utf8(text.take(leading_white_space(text) as int)).len() as int;
    lemma_target_is_cut(bytes, shift, shift, at, Reading::Start);
}

/// How log files are named.
pub proof fn log_files_are_named_after_the_project()
    ensures
        LOG_FILE_PREFIX@ == "novelnote"@,
        LOG_FILE_SUFFIX@ == "log"@,
{
}

/// Of ASCII characters, only the space and those from the tab to the carriage return are white space,
/// and what text begins with is counted up to the first character that is not.
pub proof fn white_space_is_counted_up_to_the_first_other_character(
    white: Seq<char>,
    c: char,
    rest: Seq<char>,
)
    requires
        forall|i: int| 0 <= i < white.len() ==> is_white_space(#[trigger] white[i]),
        !is_white_space(c),
    ensures
        leading_white_space(white + seq![c] + rest) == white.len(),
        leading_white_space(white) == white.len(),
        c < '\u{80}' ==> c != ' ' && !('\u{9}' <= c <= '\u{d}'),
        is_white_space(' '),
        forall|d: char| '!' <= d <= '~' ==> !#[trigger] is_white_space(d),
    decreases white.len(),
{
    let all = white + seq![c] + rest;
    if white.len() == 0 {
        assert(all[0] == c);
    } else {
        let shorter = white.skip(1);
        assert forall|i: int| 0 <= i < shorter.len() implies is_white_space(#[trigger] shorter[i]) by {
            assert(shorter[i] == white[i + 1]);
        }
        white_space_is_counted_up_to_the_first_other_character(shorter, c, rest);
        assert(all.skip(1) =~= shorter + seq![c] + rest);
        assert(all[0] == white[0]);
    }
}

/// A directive may match a field against a negative zero if and only if `=-0` is part of it.
pub proof fn signed_zero_is_written_out(before: Seq<char>, after: Seq<char>, written: Seq<char>)
    requires
        forall|i: int|
            0 <= i <= written.len() - 3 ==> #[trigger] written.subrange(i, i + 3) != seq![
                '=',
                '-',
                '0',
            ],
    ensures
        has_signed_zero(before + seq!['=', '-', '0'] + after),
        !has_signed_zero(written),
{
    let text = before + seq!['=', '-', '0'] + after;
    assert(signed_zero_at(text, before.len() as int));
    assert forall|i: int| !#[trigger] signed_zero_at(written, i) by {
        if signed_zero_at(written, i) {
            assert(written.subrange(i, i + 3) =~= seq!['=', '-', '0']);
        }
    }
}

/// What a directive applies to ends with the last `=`, after which comes its level. A directive that is
/// a level alone applies to everything.
pub proof fn selector_ends_before_the_level(selected: Seq<char>, level: Seq<char>)
    requires
        !level.contains('='),
    ensures
        selector(selected + seq!['='] + level) == selected + seq!['='],
        selector(level) == Seq::<char>::empty(),
    decreases level.len(),
{
    let text = selected + seq!['='] + level;
    if level.len() == 0 {
        assert(text =~= selected + seq!['=']);
        assert(text.last() == '=');
        assert(level =~= Seq::<char>::empty());
    } else {
        let shorter = level.drop_last();
        assert(level.contains(level.last()));
        assert forall|i: int| 0 <= i < shorter.len() implies #[trigger] shorter[i] != '=' by {
            assert(shorter[i] == level[i]);
            assert(level.contains(level[i]));
        }
        selector_ends_before_the_level(selected, shorter);
        assert(text.drop_last() =~= selected + seq!['='] + shorter);
        assert(text.last() == level.last());
    }
}

/// Logs are written to where the output says, and nowhere if it is disabled. On stdout they have
/// timestamps unless the output is without. They are left to be flushed if and only if files are
/// written.
pub proof fn logs_go_where_the_output_says(output: LogOutput)
    ensures
        output.spec_layer() is None <==> output == LogOutput::Disabled,
        output.spec_layer() == Some(LogLayer::Stdout { timestamps: true }) <==> output
            == LogOutput::Stdout,
        output.spec_layer() == Some(LogLayer::Stdout { timestamps: false }) <==> output
            == LogOutput::StdoutNoTimestamp,
        output.spec_layer() == Some(LogLayer::Journald) <==> output == LogOutput::Journald,
        output.spec_layer() == Some(LogLayer::File) <==> output == LogOutput::File,
        output.leaves_logs_to_flush() <==> output.spec_layer() == Some(LogLayer::File),
{
}

} // verus!
