//! The token list of a model: `tokens.txt`, one `<symbol> <id>` for each line.

use vstd::prelude::*;
use vstd::string::StringExecFns;
use vstd::utf8::{decode_utf8, valid_utf8};
use crate::chars::{chars_of, parse_trimmed_number, parsed_number, text_of, trimmed};
use crate::text;
use crate::text::decimal;

verus! {

/// Why a source could not be imported.
#[derive(Debug)]
pub enum LocalSourceImportError {
    /// The source holds something that the importer does not accept.
    Validation { reason: String },
    /// A file could not be read or written.
    Io { reason: String },
}

impl LocalSourceImportError {
    pub open spec fn is_validation(self, reason: Seq<char>) -> bool {
        self matches LocalSourceImportError::Validation { reason: r } && r@ == reason
    }

    /// The failure in words.
    pub fn message(&self) -> (message: String)
        ensures
            message@ == (match *self {
                LocalSourceImportError::Validation { reason } => reason@,
                LocalSourceImportError::Io { reason } => reason@,
            }),
    {
        match self {
            LocalSourceImportError::Validation { reason } => text::copy_text(reason.as_str()),
            LocalSourceImportError::Io { reason } => text::copy_text(reason.as_str()),
        }
    }
}

/// A failure with this reason.
pub fn validate_error(reason: String) -> (error: LocalSourceImportError)
    ensures
        error.is_validation(reason@),
{
    LocalSourceImportError::Validation { reason }
}

/// The outcome of a check: a validation failure with the given reason, or
/// success.
pub open spec fn validated<T>(
    result: Result<T, LocalSourceImportError>,
    refusal: Option<Seq<char>>,
) -> bool {
    match refusal {
        Some(reason) => result is Err && result->Err_0.is_validation(reason),
        None => result is Ok,
    }
}

/// `String::from_utf8`: the text that bytes encode, if they are valid UTF-8.
#[verifier::external_body]
fn utf8_text(bytes: Vec<u8>) -> (result: Option<String>)
    ensures
        match result {
            Some(decoded) => valid_utf8(bytes@) && decoded@ == decode_utf8(bytes@),
            None => !valid_utf8(bytes@),
        },
{
    String::from_utf8(bytes).ok()
}

/// A text as the standard library quotes it for a message.
pub uninterp spec fn quoted(plain: Seq<char>) -> Seq<char>;

/// The `Debug` form of `str`: the text in quotation marks, with special
/// characters escaped.  Which characters are escaped is left unsaid.
#[verifier::external_body]
fn quoted_text(plain: &str) -> (result: String)
    ensures
        result@ == quoted(plain@),
{
    format!("{plain:?}")
}

/// The lines of a text: what stands between line feeds.
pub open spec fn split_lines(text: Seq<char>) -> Seq<Seq<char>>
    decreases text.len(),
{
    if text.len() == 0 {
        seq![Seq::empty()]
    } else {
        let earlier = split_lines(text.drop_last());
        if text.last() == '\n' {
            earlier.push(Seq::empty())
        } else {
            earlier.drop_last().push(earlier.last().push(text.last()))
        }
    }
}

/// A line without carriage returns at its end.
pub open spec fn stripped(line: Seq<char>) -> Seq<char>
    decreases line.len(),
{
    if line.len() > 0 && line.last() == '\r' {
        stripped(line.drop_last())
    } else {
        line
    }
}

/// The position of the last space, or -1.
pub open spec fn last_space(line: Seq<char>) -> int
    decreases line.len(),
{
    if line.len() == 0 {
        -1
    } else if line.last() == ' ' {
        line.len() - 1
    } else {
        last_space(line.drop_last())
    }
}

/// What a line says.
pub enum LineEntry {
    /// Nothing.
    Blank,
    /// The symbol of an id.
    Token { symbol: Seq<char>, id: usize },
    /// There is no space.
    NotAPair,
    /// What follows the last space is no number.
    BadId { id_text: Seq<char> },
}

/// What a line says.
pub open spec fn line_entry(line: Seq<char>) -> LineEntry {
    let content = stripped(line);
    let at = last_space(content);
    let id_text = content.skip(at + 1);
    if content.len() == 0 {
        LineEntry::Blank
    } else if at < 0 {
        LineEntry::NotAPair
    } else {
        match parsed_number(trimmed(id_text)) {
            Some(id) => LineEntry::Token { symbol: content.take(at), id },
            None => LineEntry::BadId { id_text },
        }
    }
}

/// Why line `index` is refused.
pub open spec fn line_refusal(line: Seq<char>, index: int) -> Option<Seq<char>> {
    match line_entry(line) {
        LineEntry::NotAPair => Some(
            "xasr-zipformer tokens.txt line "@ + decimal((index + 1) as nat)
                + " is not '<symbol> <id>': "@ + quoted(stripped(line)),
        ),
        LineEntry::BadId { id_text } => Some(
            "xasr-zipformer tokens.txt line "@ + decimal((index + 1) as nat)
                + " has a non-integer id "@ + quoted(id_text),
        ),
        _ => None,
    }
}

/// Why one of the first `n` lines is refused.
pub open spec fn lines_refusal(lines: Seq<Seq<char>>, n: int) -> Option<Seq<char>>
    decreases n,
{
    if n <= 0 {
        None
    } else if lines_refusal(lines, n - 1) is Some {
        lines_refusal(lines, n - 1)
    } else {
        line_refusal(lines[n - 1], n - 1)
    }
}

/// The symbol that the first `n` lines give an id: that of the last line that
/// names it.
pub open spec fn symbol_of(lines: Seq<Seq<char>>, n: int, id: int) -> Option<Seq<char>>
    decreases n,
{
    if n <= 0 {
        None
    } else {
        match line_entry(lines[n - 1]) {
            LineEntry::Token { symbol, id: found } if found == id => Some(symbol),
            _ => symbol_of(lines, n - 1, id),
        }
    }
}

/// Why one of the first `n` ids has no symbol.
pub open spec fn missing_refusal(lines: Seq<Seq<char>>, n: int) -> Option<Seq<char>>
    decreases n,
{
    if n <= 0 {
        None
    } else if missing_refusal(lines, n - 1) is Some {
        missing_refusal(lines, n - 1)
    } else if symbol_of(lines, lines.len() as int, n - 1) is None {
        Some("xasr-zipformer tokens.txt is missing token for id "@ + decimal((n - 1) as nat))
    } else {
        None
    }
}

/// Why a token list is refused.
pub open spec fn tokens_refusal(bytes: Seq<u8>, vocab_size: u32) -> Option<Seq<char>> {
    let lines = split_lines(decode_utf8(bytes));
    if !valid_utf8(bytes) {
        Some("xasr-zipformer tokens.txt is not valid UTF-8"@)
    } else if lines_refusal(lines, lines.len() as int) is Some {
        lines_refusal(lines, lines.len() as int)
    } else {
        missing_refusal(lines, vocab_size as int)
    }
}

/// A text by its contents, if there is one.
pub open spec fn symbol_view(symbol: Option<String>) -> Option<Seq<char>> {
    match symbol {
        Some(text) => Some(text@),
        None => None,
    }
}

fn set_token(tokens: &mut Vec<Option<String>>, id: usize, symbol: String)
    requires
        id < old(tokens)@.len(),
    ensures
        final(tokens)@ == old(tokens)@.update(id as int, Some(symbol)),
{
    tokens.set(id, Some(symbol));
}

fn line_error(newlines: usize, middle: &str, shown: &str) -> (error: LocalSourceImportError)
    requires
        newlines < usize::MAX,
    ensures
        error.is_validation(
            "xasr-zipformer tokens.txt line "@ + decimal((newlines + 1) as nat) + middle@ + quoted(
                shown@,
            ),
        ),
{
    let mut reason = text::copy_text("xasr-zipformer tokens.txt line ");
    text::push_number(&mut reason, newlines + 1);
    reason.append(middle);
    let shown = quoted_text(shown);
    reason.append(shown.as_str());
    validate_error(reason)
}

/// Takes in the line `start..end`, which follows `newlines` others.
#[verifier::spinoff_prover]
fn take_line(
    chars: &[char],
    start: usize,
    end: usize,
    newlines: usize,
    tokens: &mut Vec<Option<String>>,
) -> (result: Result<(), LocalSourceImportError>)
    requires
        newlines <= start <= end <= chars@.len(),
    ensures
        ({
            let line = chars@.subrange(start as int, end as int);
            &&& validated(result, line_refusal(line, newlines as int))
            &&& final(tokens)@.len() == old(tokens)@.len()
            &&& forall|id: int|
                0 <= id < old(tokens)@.len() ==> symbol_view(#[trigger] final(tokens)@[id]) == (
                match line_entry(line) {
                    LineEntry::Token { symbol, id: found } if found == id => Some(symbol),
                    _ => symbol_view(old(tokens)@[id]),
                })
        }),
{
    let ghost line = chars@.subrange(start as int, end as int);
    let mut last = end;
    while start < last && chars[last - 1] == '\r'
        invariant
            start <= last <= end <= chars@.len(),
            stripped(chars@.subrange(start as int, last as int)) == stripped(line),
        decreases last,
    {
        assert(chars@.subrange(start as int, last as int).drop_last() =~= chars@.subrange(
            start as int,
            last - 1,
        ));
        last = last - 1;
    }
    let ghost content = chars@.subrange(start as int, last as int);
    assert(content == stripped(line));
    if start == last {
        return Ok(());
    }
    let mut at = last;
    while start < at && chars[at - 1] != ' '
        invariant
            start <= at <= last <= chars@.len(),
            content == chars@.subrange(start as int, last as int),
            last_space(chars@.subrange(start as int, at as int)) == last_space(content),
        decreases at,
    {
        assert(chars@.subrange(start as int, at as int).drop_last() =~= chars@.subrange(
            start as int,
            at - 1,
        ));
        at = at - 1;
    }
    if start == at {
        let shown = text_of(chars, start, last);
        return Err(line_error(newlines, " is not '<symbol> <id>': ", shown.as_str()));
    }
    let ghost space = at - 1 - start;
    assert(last_space(content) == space);
    assert(content.skip(space + 1) =~= chars@.subrange(at as int, last as int));
    assert(content.take(space) =~= chars@.subrange(start as int, at - 1));
    match parse_trimmed_number(chars, at, last) {
        Some(id) => {
            if id < tokens.len() {
                let symbol = text_of(chars, start, at - 1);
                set_token(tokens, id, symbol);
            }
            Ok(())
        },
        None => {
            let shown = text_of(chars, at, last);
            Err(line_error(newlines, " has a non-integer id ", shown.as_str()))
        },
    }
}

proof fn lemma_refused_lines(lines: Seq<Seq<char>>, n: int, longer: int)
    requires
        0 <= n <= longer,
    ensures
        lines_refusal(lines, n) is Some ==> lines_refusal(lines, longer) == lines_refusal(lines, n),
    decreases longer,
{
    if n < longer {
        lemma_refused_lines(lines, n, longer - 1);
    }
}

proof fn lemma_missing_monotone(lines: Seq<Seq<char>>, n: int, longer: int)
    requires
        0 <= n <= longer,
        missing_refusal(lines, n) is Some,
    ensures
        missing_refusal(lines, longer) == missing_refusal(lines, n),
    decreases longer,
{
    if n < longer {
        lemma_missing_monotone(lines, n, longer - 1);
    }
}

/// The lines of a beginning of a text are the lines of the text, but for the
/// last one, which may be cut.
proof fn lemma_split_prefix(text: Seq<char>, i: int, j: int)
    requires
        0 <= i <= j <= text.len(),
    ensures
        split_lines(text.take(i)).len() >= 1,
        split_lines(text.take(i)).len() <= split_lines(text.take(j)).len(),
        forall|k: int|
            0 <= k < split_lines(text.take(i)).len() - 1 ==> #[trigger] split_lines(
                text.take(j),
            )[k] == split_lines(text.take(i))[k],
    decreases j,
{
    if i < j {
        lemma_split_prefix(text, i, j - 1);
        assert(text.take(j).drop_last() =~= text.take(j - 1));
    } else if i > 0 {
        lemma_split_prefix(text, i - 1, i - 1);
        assert(text.take(i).drop_last() =~= text.take(i - 1));
    }
}

/// The tokens of a model by id, from the bytes of its token list.
#[verifier::spinoff_prover]
#[verifier::rlimit(40)]
pub fn parse_tokens_txt(bytes: Vec<u8>, vocab_size: u32) -> (result: Result<
    Vec<String>,
    LocalSourceImportError,
>)
    ensures
        validated(result, tokens_refusal(bytes@, vocab_size)),
        result is Ok ==> {
            let lines = split_lines(decode_utf8(bytes@));
            &&& result->Ok_0@.len() == vocab_size
            &&& forall|id: int|
                0 <= id < vocab_size ==> symbol_of(lines, lines.len() as int, id) == Some(
                    (#[trigger] result->Ok_0@[id])@,
                )
        },
{
    let ghost decoded = decode_utf8(bytes@);
    let text = match utf8_text(bytes) {
        Some(text) => text,
        None => return Err(
            validate_error(text::copy_text("xasr-zipformer tokens.txt is not valid UTF-8")),
        ),
    };
    let chars = chars_of(text.as_str());
    let ghost lines = split_lines(decoded);
    let vocab = vocab_size as usize;
    let mut tokens: Vec<Option<String>> = Vec::new();
    let mut filled: usize = 0;
    while filled < vocab
        invariant
            filled <= vocab,
            tokens@.len() == filled,
            forall|id: int| 0 <= id < filled ==> (#[trigger] tokens@[id]) is None,
        decreases vocab - filled,
    {
        tokens.push(None);
        filled = filled + 1;
    }
    let mut start: usize = 0;
    let mut i: usize = 0;
    let mut newlines: usize = 0;
    proof {
        assert(decoded.take(0) =~= Seq::<char>::empty());
        assert(decoded.subrange(0, 0) =~= Seq::<char>::empty());
    }
    while i < chars.len()
        invariant
            decoded == chars@,
            lines == split_lines(decoded),
            vocab == vocab_size,
            newlines <= start <= i <= chars@.len(),
            split_lines(decoded.take(i as int)).len() == newlines + 1,
            split_lines(decoded.take(i as int)).last() == decoded.subrange(start as int, i as int),
            tokens@.len() == vocab,
            lines_refusal(lines, newlines as int) is None,
            forall|id: int|
                0 <= id < vocab ==> symbol_view(#[trigger] tokens@[id]) == symbol_of(
                    lines,
                    newlines as int,
                    id,
                ),
            tokens_refusal(bytes@, vocab_size) == (if lines_refusal(lines, lines.len() as int) is Some {
                lines_refusal(lines, lines.len() as int)
            } else {
                missing_refusal(lines, vocab_size as int)
            }),
        decreases chars@.len() - i,
    {
        proof {
            assert(decoded.take(i + 1).drop_last() =~= decoded.take(i as int));
            lemma_split_prefix(decoded, i + 1, decoded.len() as int);
            assert(decoded.take(decoded.len() as int) =~= decoded);
        }
        if chars[i] == '\n' {
            proof {
                let now = split_lines(decoded.take(i + 1));
                assert(now[newlines as int] == decoded.subrange(start as int, i as int));
                assert(lines[newlines as int] == decoded.subrange(start as int, i as int));
                lemma_refused_lines(lines, newlines + 1, lines.len() as int);
            }
            take_line(chars.as_slice(), start, i, newlines, &mut tokens)?;
            proof {
                assert(decoded.subrange(i + 1, i + 1) =~= Seq::<char>::empty());
            }
            start = i + 1;
            newlines = newlines + 1;
        } else {
            assert(decoded.subrange(start as int, i + 1) =~= decoded.subrange(
                start as int,
                i as int,
            ).push(decoded[i as int]));
        }
        i = i + 1;
    }
    proof {
        assert(decoded.take(i as int) =~= decoded);
        assert(lines[newlines as int] == decoded.subrange(start as int, i as int));
        lemma_refused_lines(lines, newlines + 1, lines.len() as int);
    }
    take_line(chars.as_slice(), start, i, newlines, &mut tokens)?;
    collect_tokens(tokens, Ghost(lines), vocab_size)
}

/// The symbols of all ids, if there are any.
fn collect_tokens(
    tokens: Vec<Option<String>>,
    Ghost(lines): Ghost<Seq<Seq<char>>>,
    vocab_size: u32,
) -> (result: Result<Vec<String>, LocalSourceImportError>)
    requires
        tokens@.len() == vocab_size,
        forall|id: int|
            0 <= id < vocab_size ==> symbol_view(#[trigger] tokens@[id]) == symbol_of(
                lines,
                lines.len() as int,
                id,
            ),
    ensures
        validated(result, missing_refusal(lines, vocab_size as int)),
        result is Ok ==> {
            &&& result->Ok_0@.len() == vocab_size
            &&& forall|id: int|
                0 <= id < vocab_size ==> symbol_of(lines, lines.len() as int, id) == Some(
                    (#[trigger] result->Ok_0@[id])@,
                )
        },
{
    let mut symbols: Vec<String> = Vec::new();
    let mut id: usize = 0;
    while id < tokens.len()
        invariant
            id <= tokens@.len(),
            tokens@.len() == vocab_size,
            symbols@.len() == id,
            missing_refusal(lines, id as int) is None,
            forall|k: int|
                0 <= k < vocab_size ==> symbol_view(#[trigger] tokens@[k]) == symbol_of(
                    lines,
                    lines.len() as int,
                    k,
                ),
            forall|k: int|
                0 <= k < id ==> symbol_of(lines, lines.len() as int, k) == Some(
                    (#[trigger] symbols@[k])@,
                ),
        decreases tokens@.len() - id,
    {
        assert(symbol_view(tokens@[id as int]) == symbol_of(
            lines,
            lines.len() as int,
            id as int,
        ));
        match &tokens[id] {
            Some(symbol) => {
                symbols.push(text::copy_text(symbol.as_str()));
            },
            None => {
                proof {
                    lemma_missing_monotone(lines, id + 1, vocab_size as int);
                }
                let mut reason = text::copy_text(
                    "xasr-zipformer tokens.txt is missing token for id ",
                );
                text::push_number(&mut reason, id);
                return Err(validate_error(reason));
            },
        }
        id = id + 1;
    }
    Ok(symbols)
}

} // verus!
