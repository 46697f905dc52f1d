//! What a pack holds of its source.

use vstd::prelude::*;
use crate::chars::{
    digits_value, found_at, has_suffix, is_digit, occurs, parsed_number, trimmed, white_space,
};
use crate::package_import::{
    config_refusal, f16_bytes, f32_bytes, stored_as_f16, stored_as_f32, written_as,
    GgufWriteTensor, ImportHost, SourceTensor, XasrZipformerConfigJson,
};
use crate::package_names::{compacted, kept_f32, normalized_dims, GgufWriteTensorType, PackQuant};
use crate::package_tokens::{
    last_space, line_entry, line_refusal, lines_refusal, missing_refusal, split_lines, stripped,
    symbol_of, LineEntry,
};
use crate::text::{decimal, lemma_decimal_digits, lemma_decimal_len};

verus! {

/// The number in four bytes, the lowest first.
pub open spec fn word_at(bytes: Seq<u8>, at: int) -> int {
    bytes[at] + 256 * (bytes[at + 1] + 256 * (bytes[at + 2] + 256 * bytes[at + 3]))
}

/// The number in two bytes, the lowest first.
pub open spec fn half_word_at(bytes: Seq<u8>, at: int) -> int {
    bytes[at] + 256 * bytes[at + 1]
}

/// Values that were stored can be read, each in its place.
pub proof fn law_stored_words_can_be_read(values: Seq<u32>, i: int)
    requires
        0 <= i < values.len(),
    ensures
        f32_bytes(values).len() == 4 * values.len(),
        word_at(f32_bytes(values), 4 * i) == values[i],
    decreases values.len(),
{
    let rest = values.drop_last();
    if rest.len() > 0 {
        law_stored_words_can_be_read(rest, if i < rest.len() { i } else { 0 });
    }
    if i == rest.len() {
        let v = values.last();
        assert(rest.len() == 0 ==> f32_bytes(rest).len() == 0);
        assert(v as int == v % 256 + 256 * (v / 256 % 256 + 256 * (v / 65536 % 256 + 256 * (v
            / 16777216)))) by {
            assert(v / 65536 == (v / 256) / 256 && v / 16777216 == (v / 65536) / 256);
        }
    }
}

/// Values of half the size that were stored can be read, each in its place.
pub proof fn law_stored_half_words_can_be_read(values: Seq<u16>, i: int)
    requires
        0 <= i < values.len(),
    ensures
        f16_bytes(values).len() == 2 * values.len(),
        half_word_at(f16_bytes(values), 2 * i) == values[i],
    decreases values.len(),
{
    let rest = values.drop_last();
    if rest.len() > 0 {
        law_stored_half_words_can_be_read(rest, if i < rest.len() { i } else { 0 });
    }
    if i == rest.len() {
        assert(rest.len() == 0 ==> f16_bytes(rest).len() == 0);
    }
}

/// A text ends with another exactly if it is some text followed by it.
pub proof fn law_an_ending_follows_some_text(text: Seq<char>, ending: Seq<char>)
    ensures
        has_suffix(text, ending) <==> exists|head: Seq<char>| text == #[trigger] (head + ending),
{
    if has_suffix(text, ending) {
        let at = text.len() - ending.len();
        let head = text.take(at);
        assert(text =~= head + ending) by {
            assert(text.subrange(at, at + ending.len()) == ending);
        }
    }
    if exists|head: Seq<char>| text == #[trigger] (head + ending) {
        let head = choose|head: Seq<char>| text == #[trigger] (head + ending);
        assert(text.subrange(head.len() as int, (head.len() + ending.len()) as int) =~= ending);
    }
}

/// A text holds another exactly if it is that text with something around it.
pub proof fn law_what_occurs_has_something_around_it(text: Seq<char>, inner: Seq<char>)
    ensures
        occurs(text, inner) <==> exists|head: Seq<char>, tail: Seq<char>|
            text == #[trigger] (head + inner + tail),
{
    if occurs(text, inner) {
        let at = choose|at: int| found_at(text, inner, at);
        let head = text.take(at);
        let tail = text.skip(at + inner.len());
        assert(text =~= head + inner + tail) by {
            assert(text.subrange(at, at + inner.len()) == inner);
        }
    }
    if exists|head: Seq<char>, tail: Seq<char>| text == #[trigger] (head + inner + tail) {
        let (head, tail): (Seq<char>, Seq<char>) = choose|head: Seq<char>, tail: Seq<char>|
            text == #[trigger] (head + inner + tail);
        let at = head.len() as int;
        assert(text.subrange(at, at + inner.len()) =~= inner);
        assert(found_at(text, inner, at));
    }
}

/// The dimensions of a weight with more than one stand in a pack from the fastest to the
/// slowest; all others stay as they are.
pub proof fn law_weights_turn_their_dimensions_round(
    head: Seq<char>,
    ending: Seq<char>,
    shape: Seq<u64>,
)
    ensures
        ending == ".weight"@ && shape.len() >= 2 ==> normalized_dims(head + ending, shape).len()
            == shape.len() && forall|i: int|
            0 <= i < shape.len() ==> #[trigger] normalized_dims(head + ending, shape)[i]
                == shape[shape.len() - 1 - i],
        shape.len() < 2 ==> normalized_dims(head + ending, shape) == shape,
        (forall|other: Seq<char>| head + ending != #[trigger] (other + ".weight"@))
            ==> normalized_dims(head + ending, shape) == shape,
{
    law_an_ending_follows_some_text(head + ending, ".weight"@);
}

/// The name of a tensor whose values have to stay exact: a bias, a norm, a scale, a bypass or
/// the embedding of the predictor.
pub open spec fn has_to_stay_exact(name: Seq<char>) -> bool {
    ||| exists|head: Seq<char>| name == #[trigger] (head + ".bias"@)
    ||| exists|head: Seq<char>, tail: Seq<char>| name == #[trigger] (head + "norm"@ + tail)
    ||| exists|head: Seq<char>, tail: Seq<char>| name == #[trigger] (head + "_scale"@ + tail)
    ||| exists|head: Seq<char>, tail: Seq<char>| name == #[trigger] (head + "bypass"@ + tail)
    ||| name == "decoder.embedding.weight"@
}

proof fn lemma_kept(name: Seq<char>, dims: Seq<u64>)
    ensures
        kept_f32(name, dims) == (has_to_stay_exact(name) || dims.len() != 2),
{
    law_an_ending_follows_some_text(name, ".bias"@);
    law_what_occurs_has_something_around_it(name, "norm"@);
    law_what_occurs_has_something_around_it(name, "_scale"@);
    law_what_occurs_has_something_around_it(name, "bypass"@);
}

/// A tensor that has to stay exact, or that is no matrix, is stored in full.  Every other one
/// is stored in half the size, unless it is a weight of a pack that is to be quantized.
pub proof fn law_only_plain_matrices_are_shrunk<H: ImportHost>(
    host: &H,
    tensor: SourceTensor,
    quantization: PackQuant,
    written: GgufWriteTensor,
)
    requires
        written_as(host, tensor, quantization, written),
    ensures
        written.name@ == compacted(tensor.name@),
        written.dims@.len() == tensor.shape@.len(),
        has_to_stay_exact(tensor.name@) || tensor.shape@.len() != 2 ==> written.tensor_type
            == GgufWriteTensorType::F32 && stored_as_f32(host, tensor, written),
        !has_to_stay_exact(tensor.name@) && tensor.shape@.len() == 2 && (quantization
            == PackQuant::Fp16 || forall|head: Seq<char>|
            tensor.name@ != #[trigger] (head + ".weight"@)) ==> written.tensor_type
            == GgufWriteTensorType::F16 && stored_as_f16(host, tensor, written),
        !has_to_stay_exact(tensor.name@) && tensor.shape@.len() == 2 && written.tensor_type
            == GgufWriteTensorType::F32 ==> quantization != PackQuant::Fp16,
{
    let dims = normalized_dims(tensor.name@, tensor.shape@);
    lemma_kept(tensor.name@, dims);
    law_an_ending_follows_some_text(tensor.name@, ".weight"@);
}

/// A configuration is accepted exactly if it has a stack, every list has an entry for each
/// stack, and the blank is one of the tokens.
pub proof fn law_a_configuration_is_accepted_exactly_if_it_fits(config: XasrZipformerConfigJson)
    ensures
        config_refusal(config) is None <==> {
            let stacks = config.num_encoder_layers@.len();
            &&& stacks > 0
            &&& config.encoder_dims@.len() == stacks
            &&& config.query_head_dims@.len() == stacks
            &&& config.value_head_dims@.len() == stacks
            &&& config.num_heads@.len() == stacks
            &&& config.cnn_module_kernels@.len() == stacks
            &&& config.left_context_len@.len() == stacks
            &&& config.downsampling_factors@.len() == stacks
            &&& config.blank_id < config.vocab_size
        },
{
}

/// A line that gives a symbol its number.
pub open spec fn token_line(symbol: Seq<char>, id: nat) -> Seq<char> {
    symbol + seq![' '] + decimal(id)
}

proof fn lemma_number_in_line(symbol: Seq<char>, id: nat, n: int)
    requires
        0 <= n <= decimal(id).len(),
    ensures
        last_space(symbol + seq![' '] + decimal(id).take(n)) == symbol.len(),
    decreases n,
{
    let text = symbol + seq![' '] + decimal(id).take(n);
    if n > 0 {
        lemma_decimal_digits(id, n - 1);
        lemma_number_in_line(symbol, id, n - 1);
        assert(text.drop_last() =~= symbol + seq![' '] + decimal(id).take(n - 1));
    } else {
        assert(text.last() == ' ');
    }
}

proof fn lemma_number_read(id: nat)
    ensures
        digits_value(decimal(id)) == id,
    decreases id,
{
    reveal_with_fuel(digits_value, 2);
    if id < 10 {
        assert(decimal(id).drop_last() =~= Seq::<char>::empty());
    } else {
        lemma_number_read(id / 10);
        assert(decimal(id).drop_last() =~= decimal(id / 10));
    }
}

proof fn lemma_stripped(line: Seq<char>, trailing: nat)
    requires
        line.len() > 0,
        line.last() != '\r',
    ensures
        stripped(line + Seq::new(trailing, |i: int| '\r')) == line,
    decreases trailing,
{
    let text = line + Seq::new(trailing, |i: int| '\r');
    if trailing > 0 {
        lemma_stripped(line, (trailing - 1) as nat);
        assert(text.drop_last() =~= line + Seq::new((trailing - 1) as nat, |i: int| '\r'));
    } else {
        assert(text =~= line);
    }
}

/// A line that gives a symbol its number is read so, whatever the symbol is, and also where
/// carriage characters end the line.
pub proof fn law_token_lines_can_be_read(symbol: Seq<char>, id: nat, trailing: nat)
    requires
        id <= usize::MAX,
    ensures
        line_entry(token_line(symbol, id) + Seq::new(trailing, |i: int| '\r'))
            == (LineEntry::Token { symbol, id: id as usize }),
{
    let line = token_line(symbol, id);
    let digits = decimal(id);
    lemma_decimal_len(id);
    lemma_decimal_digits(id, digits.len() - 1);
    lemma_decimal_digits(id, 0);
    lemma_stripped(line, trailing);
    lemma_number_in_line(symbol, id, digits.len() as int);
    assert(digits.take(digits.len() as int) =~= digits);
    assert(line.skip(symbol.len() as int + 1) =~= digits);
    assert(line.take(symbol.len() as int) =~= symbol);
    assert(trimmed(digits) == digits);
    assert forall|i: int| 0 <= i < digits.len() implies is_digit(#[trigger] digits[i]) by {
        lemma_decimal_digits(id, i);
    }
    lemma_number_read(id);
}

/// Trimming takes white space off both ends of a text, and nothing else.
pub proof fn law_trimming_takes_white_space_off_both_ends(text: Seq<char>) -> (cut: (int, int))
    ensures
        0 <= cut.0 <= cut.1 <= text.len(),
        trimmed(text) == text.subrange(cut.0, cut.1),
        forall|i: int| 0 <= i < cut.0 ==> white_space(#[trigger] text[i]),
        forall|i: int| cut.1 <= i < text.len() ==> white_space(#[trigger] text[i]),
        cut.0 < cut.1 ==> !white_space(text[cut.0]) && !white_space(text[cut.1 - 1]),
    decreases text.len(),
{
    let n = text.len() as int;
    if n == 0 {
        assert(trimmed(text) =~= text.subrange(0, 0));
        (0, 0)
    } else if white_space(text[0]) {
        let rest = text.skip(1);
        let cut = law_trimming_takes_white_space_off_both_ends(rest);
        assert(rest.subrange(cut.0, cut.1) =~= text.subrange(cut.0 + 1, cut.1 + 1));
        assert forall|i: int| 0 <= i < cut.0 + 1 implies white_space(#[trigger] text[i]) by {
            if i > 0 {
                assert(white_space(rest[i - 1]));
            }
        }
        assert forall|i: int| cut.1 + 1 <= i < text.len() implies white_space(
            #[trigger] text[i],
        ) by {
            assert(white_space(rest[i - 1]));
        }
        (cut.0 + 1, cut.1 + 1)
    } else if white_space(text.last()) {
        let rest = text.drop_last();
        let cut = law_trimming_takes_white_space_off_both_ends(rest);
        assert(rest.subrange(cut.0, cut.1) =~= text.subrange(cut.0, cut.1));
        assert forall|i: int| 0 <= i < cut.0 implies white_space(#[trigger] text[i]) by {
            assert(white_space(rest[i]));
        }
        assert forall|i: int| cut.1 <= i < text.len() implies white_space(#[trigger] text[i]) by {
            if i < rest.len() {
                assert(white_space(rest[i]));
            }
        }
        cut
    } else {
        assert(trimmed(text) =~= text.subrange(0, n));
        (0, n)
    }
}

/// A space, a tab and the marks that end a line are white space; what can be seen in plain
/// text is not.
pub proof fn law_plain_characters_are_no_white_space(c: char)
    ensures
        c == ' ' || c == '\t' || c == '\n' || c == '\r' ==> white_space(c),
        '!' <= c <= '~' ==> !white_space(c),
{
}

/// A number may have a plus sign before its digits; a text with anything else in it, without
/// digits, or for a number that is too great, is none.
pub proof fn law_numbers_are_digits_after_a_plus_sign_or_none(text: Seq<char>, n: nat)
    ensures
        n <= usize::MAX ==> parsed_number(decimal(n)) == Some(n as usize),
        n <= usize::MAX ==> parsed_number(seq!['+'] + decimal(n)) == Some(n as usize),
        n > usize::MAX ==> parsed_number(decimal(n)) is None,
        text.len() == 0 ==> parsed_number(text) is None,
        forall|i: int|
            0 <= i < text.len() && !('0' <= #[trigger] text[i] <= '9') && !(i == 0 && text[0] == '+'
                && text.len() > 1) ==> parsed_number(text) is None,
{
    let digits = decimal(n);
    lemma_decimal_len(n);
    lemma_decimal_digits(n, 0);
    lemma_number_read(n);
    assert forall|i: int| 0 <= i < digits.len() implies is_digit(#[trigger] digits[i]) by {
        lemma_decimal_digits(n, i);
    }
    assert((seq!['+'] + digits).skip(1) =~= digits);
    assert forall|i: int|
        0 <= i < text.len() && !('0' <= #[trigger] text[i] <= '9') && !(i == 0 && text[0] == '+'
            && text.len() > 1) implies parsed_number(text) is None by {
        if text.len() > 1 && text[0] == '+' {
            assert(!is_digit(text.skip(1)[i - 1]));
        } else {
            assert(!is_digit(text[i]));
        }
    }
}

/// The symbol of a number is that of the last line that gives it.
pub proof fn law_the_last_line_of_a_number_counts(
    lines: Seq<Seq<char>>,
    n: int,
    id: usize,
    at: int,
    symbol: Seq<char>,
)
    requires
        0 <= at < n <= lines.len(),
        line_entry(lines[at]) == (LineEntry::Token { symbol, id }),
        forall|i: int|
            at < i < n && #[trigger] line_entry(lines[i]) is Token ==> line_entry(lines[i])->id
                != id,
    ensures
        symbol_of(lines, n, id as int) == Some(symbol),
    decreases n,
{
    if at < n - 1 {
        law_the_last_line_of_a_number_counts(lines, n - 1, id, at, symbol);
    }
}

/// A number that no line gives has no symbol.
pub proof fn law_a_number_without_a_line_has_no_symbol(lines: Seq<Seq<char>>, n: int, id: int)
    requires
        0 <= n <= lines.len(),
        symbol_of(lines, n, id) is Some,
    ensures
        exists|i: int|
            0 <= i < n && #[trigger] line_entry(lines[i]) is Token && line_entry(lines[i])->id == id
                && Some(line_entry(lines[i])->symbol) == symbol_of(lines, n, id),
    decreases n,
{
    if n > 0 {
        let last = line_entry(lines[n - 1]);
        if last is Token && last->id == id {
        } else {
            law_a_number_without_a_line_has_no_symbol(lines, n - 1, id);
        }
    }
}

/// Lines with a break between every two of them.
pub open spec fn with_breaks(lines: Seq<Seq<char>>) -> Seq<char>
    decreases lines.len(),
{
    if lines.len() == 0 {
        Seq::empty()
    } else if lines.len() == 1 {
        lines[0]
    } else {
        with_breaks(lines.drop_last()) + seq!['\n'] + lines.last()
    }
}

proof fn lemma_line_added(text: Seq<char>, line: Seq<char>)
    requires
        forall|i: int| 0 <= i < line.len() ==> #[trigger] line[i] != '\n',
    ensures
        split_lines(text + seq!['\n'] + line) == split_lines(text).push(line),
    decreases line.len(),
{
    let whole = text + seq!['\n'] + line;
    if line.len() == 0 {
        assert(whole.drop_last() =~= text);
        assert(line =~= Seq::<char>::empty());
    } else {
        let shorter = line.drop_last();
        assert forall|i: int| 0 <= i < shorter.len() implies #[trigger] shorter[i] != '\n' by {
            assert(shorter[i] == line[i]);
        }
        lemma_line_added(text, shorter);
        assert(whole.drop_last() =~= text + seq!['\n'] + shorter);
        assert(line[line.len() - 1] != '\n');
        assert(split_lines(text).push(shorter).drop_last() =~= split_lines(text));
        assert(shorter.push(line.last()) =~= line);
    }
}

proof fn lemma_one_line(line: Seq<char>)
    requires
        forall|i: int| 0 <= i < line.len() ==> #[trigger] line[i] != '\n',
    ensures
        split_lines(line) == seq![line],
    decreases line.len(),
{
    if line.len() == 0 {
        assert(line =~= Seq::<char>::empty());
    } else {
        let shorter = line.drop_last();
        assert forall|i: int| 0 <= i < shorter.len() implies #[trigger] shorter[i] != '\n' by {
            assert(shorter[i] == line[i]);
        }
        lemma_one_line(shorter);
        assert(line[line.len() - 1] != '\n');
        assert(seq![shorter].drop_last() =~= Seq::<Seq<char>>::empty());
        assert(shorter.push(line.last()) =~= line);
        assert(split_lines(line) =~= seq![line]);
    }
}

/// A text falls into the lines that it was made of.
pub proof fn law_texts_fall_into_their_lines(lines: Seq<Seq<char>>)
    requires
        lines.len() > 0,
        forall|k: int, i: int|
            0 <= k < lines.len() && 0 <= i < lines[k].len() ==> #[trigger] lines[k][i] != '\n',
    ensures
        split_lines(with_breaks(lines)) == lines,
    decreases lines.len(),
{
    assert forall|i: int| 0 <= i < lines.last().len() implies #[trigger] lines.last()[i] != '\n' by {
        assert(lines[lines.len() - 1][i] != '\n');
    }
    if lines.len() == 1 {
        lemma_one_line(lines[0]);
        assert(lines =~= seq![lines[0]]);
    } else {
        let before = lines.drop_last();
        assert forall|k: int, i: int|
            0 <= k < before.len() && 0 <= i < before[k].len() implies #[trigger] before[k][i]
            != '\n' by {
            assert(lines[k][i] != '\n');
        }
        law_texts_fall_into_their_lines(before);
        lemma_line_added(with_breaks(before), lines.last());
        assert(before.push(lines.last()) =~= lines);
    }
}

/// The lines of a vocabulary, from the first number on.
pub open spec fn vocabulary_lines(symbols: Seq<Seq<char>>) -> Seq<Seq<char>> {
    Seq::new(symbols.len(), |id: int| token_line(symbols[id], id as nat))
}

/// A vocabulary that was written line by line is read as it is.
pub proof fn law_a_written_vocabulary_can_be_read(symbols: Seq<Seq<char>>, id: int)
    requires
        symbols.len() <= usize::MAX,
        0 <= id < symbols.len(),
        forall|k: int, i: int|
            0 <= k < symbols.len() && 0 <= i < symbols[k].len() ==> #[trigger] symbols[k][i]
                != '\n',
    ensures
        ({
            let lines = split_lines(with_breaks(vocabulary_lines(symbols)));
            &&& lines.len() == symbols.len()
            &&& symbol_of(lines, lines.len() as int, id) == Some(symbols[id])
        }),
{
    let lines = vocabulary_lines(symbols);
    assert forall|k: int, i: int| 0 <= k < lines.len() && 0 <= i < lines[k].len() implies
        #[trigger] lines[k][i] != '\n' by {
        let line = token_line(symbols[k], k as nat);
        if i < symbols[k].len() {
            assert(symbols[k][i] != '\n');
        } else if i > symbols[k].len() {
            lemma_decimal_digits(k as nat, i - symbols[k].len() - 1);
            assert(line[i] == decimal(k as nat)[i - symbols[k].len() - 1]);
        }
    }
    law_texts_fall_into_their_lines(lines);
    assert forall|k: int| 0 <= k < lines.len() implies #[trigger] line_entry(lines[k]) == (
    LineEntry::Token { symbol: symbols[k], id: k as usize }) by {
        law_token_lines_can_be_read(symbols[k], k as nat, 0);
        assert(token_line(symbols[k], k as nat) + Seq::new(0, |i: int| '\r') =~= lines[k]);
    }
    law_the_last_line_of_a_number_counts(
        lines,
        lines.len() as int,
        id as usize,
        id,
        symbols[id],
    );
}

/// Lines are refused for the first one that is neither empty nor gives a number, and a number
/// that has no line for the first one.
pub proof fn law_the_first_bad_line_is_named(lines: Seq<Seq<char>>, n: int)
    requires
        0 <= n <= lines.len(),
    ensures
        lines_refusal(lines, n) is None <==> forall|i: int|
            0 <= i < n ==> #[trigger] line_entry(lines[i]) is Blank || line_entry(lines[i]) is Token,
        lines_refusal(lines, n) is Some ==> exists|i: int|
            0 <= i < n && lines_refusal(lines, n) == #[trigger] line_refusal(lines[i], i) && forall|
                j: int,
            |
                0 <= j < i ==> #[trigger] line_entry(lines[j]) is Blank || line_entry(
                    lines[j],
                ) is Token,
    decreases n,
{
    if n > 0 {
        law_the_first_bad_line_is_named(lines, n - 1);
        let last = line_entry(lines[n - 1]);
        if lines_refusal(lines, n - 1) is Some {
            let i = choose|i: int|
                0 <= i < n - 1 && lines_refusal(lines, n - 1) == #[trigger] line_refusal(lines[i], i)
                    && forall|j: int|
                    0 <= j < i ==> #[trigger] line_entry(lines[j]) is Blank || line_entry(
                        lines[j],
                    ) is Token;
            assert(line_refusal(lines[i], i) == lines_refusal(lines, n));
        } else {
            assert(lines_refusal(lines, n) == line_refusal(lines[n - 1], n - 1));
        }
    }
}

/// A vocabulary is complete exactly if every number has a symbol.
pub proof fn law_every_number_needs_a_symbol(lines: Seq<Seq<char>>, n: int)
    ensures
        missing_refusal(lines, n) is None <==> forall|id: int|
            0 <= id < n ==> #[trigger] symbol_of(lines, lines.len() as int, id) is Some,
    decreases n,
{
    if n > 0 {
        law_every_number_needs_a_symbol(lines, n - 1);
    }
}

} // verus!
