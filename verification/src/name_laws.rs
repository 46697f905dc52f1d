//! What compaction promises of tensor names.

use vstd::prelude::*;
use crate::chars;
use crate::chars::{found_at, occurs, replaced};
use crate::encoder_loading::{lemma_number_before_dot, prefix_of, stack_name};
use crate::package_names;
use crate::package_names::{abbreviated, compacted, spec_replacement, REPLACEMENT_COUNT};
use crate::text;
use crate::text::decimal;

verus! {

/// A capital letter.
pub open spec fn capital(c: char) -> bool {
    'A' <= c <= 'Z'
}

/// A digit.
pub open spec fn digit(c: char) -> bool {
    '0' <= c <= '9'
}

/// No capital letter in a text.
pub open spec fn plain(text: Seq<char>) -> bool {
    forall|i: int| 0 <= i < text.len() ==> !capital(#[trigger] text[i])
}

/// An abbreviation is told from every fragment by its capital letters: only
/// its first or last character may be one of the fragment.
pub open spec fn telling(pattern: Seq<char>, with: Seq<char>) -> bool {
    &&& plain(pattern)
    &&& pattern.len() >= 6
    &&& forall|i: int| 0 <= i < pattern.len() ==> !digit(#[trigger] pattern[i])
    &&& 1 <= with.len() <= pattern.len()
    &&& !capital(with[0]) ==> with.len() >= 2 && with[0] == pattern[0] && capital(with[1])
    &&& !capital(with.last()) ==> with.len() >= 2 && with.last() == pattern.last() && capital(
        with[with.len() - 2],
    ) && pattern[0] != pattern.last()
    &&& forall|i: int| 0 < i < with.len() - 1 ==> capital(#[trigger] with[i])
    &&& pattern[0] == '.' ==> with[0] == '.'
}

#[verifier::spinoff_prover]
#[verifier::rlimit(60)]
pub proof fn lemma_abbreviations_tell(i: int)
    requires
        0 <= i < REPLACEMENT_COUNT,
    ensures
        telling(spec_replacement(i).0, spec_replacement(i).1),
{
    if i == 0 {
        reveal_strlit("encoder.encoders.");
        reveal_strlit("E");
    } else if i == 1 {
        reveal_strlit(".encoder.layers.");
        reveal_strlit(".L");
    } else if i == 2 {
        reveal_strlit(".layers.");
        reveal_strlit(".L");
    } else if i == 3 {
        reveal_strlit("encoder_embed.");
        reveal_strlit("EE.");
    } else if i == 4 {
        reveal_strlit("conv_module");
        reveal_strlit("CM");
    } else if i == 5 {
        reveal_strlit("depthwise_conv.");
        reveal_strlit("DW.");
    } else if i == 6 {
        reveal_strlit("pointwise_conv");
        reveal_strlit("PW");
    } else if i == 7 {
        reveal_strlit("chunkwise_conv");
        reveal_strlit("KC");
    } else if i == 8 {
        reveal_strlit("causal_conv");
        reveal_strlit("CC");
    } else if i == 9 {
        reveal_strlit("nonlin_attention.");
        reveal_strlit("NA.");
    } else if i == 10 {
        reveal_strlit("self_attn_weights.");
        reveal_strlit("SAW.");
    } else if i == 11 {
        reveal_strlit("self_attn.");
        reveal_strlit("SA.");
    } else if i == 12 {
        reveal_strlit("feed_forward");
        reveal_strlit("FF");
    } else if i == 13 {
        reveal_strlit("in_proj");
        reveal_strlit("IP");
    } else if i == 14 {
        reveal_strlit("out_proj");
        reveal_strlit("OP");
    } else if i == 15 {
        reveal_strlit("linear_pos");
        reveal_strlit("LP");
    } else if i == 16 {
        reveal_strlit("bypass");
        reveal_strlit("BY");
    } else if i == 17 {
        reveal_strlit("downsample");
        reveal_strlit("DS");
    } else if i == 18 {
        reveal_strlit("convnext");
        reveal_strlit("CX");
    } else if i == 19 {
        reveal_strlit("output_linear");
        reveal_strlit("OL");
    } else {
        reveal_strlit("embedding");
        reveal_strlit("EMB");
    }
}

/// What stands at the beginning of the outcome stood at the beginning.
proof fn lemma_beginning_stays(
    text: Seq<char>,
    pattern: Seq<char>,
    with: Seq<char>,
    fragment: Seq<char>,
)
    requires
        telling(pattern, with),
        plain(fragment),
        fragment.len() > 0,
        found_at(replaced(text, pattern, with), fragment, 0),
    ensures
        found_at(text, fragment, 0),
    decreases text.len(),
{
    let outcome = replaced(text, pattern, with);
    assert forall|k: int| 0 <= k < fragment.len() implies outcome[k] == fragment[k] by {
        assert(outcome.subrange(0, fragment.len() as int)[k] == fragment[k]);
    }
    if text.len() == 0 {
    } else if found_at(text, pattern, 0) {
        assert(outcome[0] == with[0]);
        assert(!capital(fragment[0]));
        assert(outcome[1] == with[1]);
        if fragment.len() >= 2 {
            assert(!capital(fragment[1]));
        }
        assert(fragment.len() == 1);
        assert(text.subrange(0, pattern.len() as int)[0] == pattern[0]);
        assert(text.subrange(0, 1) =~= fragment);
    } else {
        assert(outcome[0] == text[0]);
        if fragment.len() > 1 {
            let rest = fragment.skip(1);
            let tail = replaced(text.skip(1), pattern, with);
            assert(tail.subrange(0, rest.len() as int) =~= rest) by {
                assert forall|k: int| 0 <= k < rest.len() implies tail[k] == rest[k] by {
                    assert(outcome[k + 1] == tail[k]);
                }
            }
            assert(plain(rest));
            lemma_beginning_stays(text.skip(1), pattern, with, rest);
            assert forall|k: int| 0 <= k < fragment.len() implies text[k] == fragment[k] by {
                if k > 0 {
                    assert(text.skip(1).subrange(0, rest.len() as int)[k - 1] == rest[k - 1]);
                }
            }
        }
        assert(text.subrange(0, fragment.len() as int) =~= fragment);
    }
}

proof fn lemma_found_later(text: Seq<char>, fragment: Seq<char>, skipped: int, at: int)
    requires
        0 <= skipped <= text.len(),
        found_at(text.skip(skipped), fragment, at),
    ensures
        found_at(text, fragment, at + skipped),
{
    assert(text.skip(skipped).subrange(at, at + fragment.len()) =~= text.subrange(
        at + skipped,
        at + skipped + fragment.len(),
    ));
}

proof fn lemma_found_in_sum(head: Seq<char>, tail: Seq<char>, fragment: Seq<char>, at: int)
    requires
        found_at(head + tail, fragment, at),
        at >= head.len(),
    ensures
        found_at(tail, fragment, at - head.len()),
{
    assert((head + tail).subrange(at, at + fragment.len()) =~= tail.subrange(
        at - head.len(),
        at - head.len() + fragment.len(),
    ));
}

/// An abbreviation brings about no fragment that was not there.
proof fn lemma_nothing_appears(
    text: Seq<char>,
    pattern: Seq<char>,
    with: Seq<char>,
    fragment: Seq<char>,
    at: int,
)
    requires
        telling(pattern, with),
        plain(fragment),
        fragment.len() >= 2,
        found_at(replaced(text, pattern, with), fragment, at),
    ensures
        occurs(text, fragment),
    decreases text.len(),
{
    let outcome = replaced(text, pattern, with);
    assert forall|k: int| 0 <= k < fragment.len() implies outcome[at + k] == fragment[k] by {
        assert(outcome.subrange(at, at + fragment.len())[k] == fragment[k]);
    }
    if text.len() == 0 {
    } else if found_at(text, pattern, 0) {
        let n = pattern.len() as int;
        let tail = replaced(text.skip(n), pattern, with);
        if at >= with.len() {
            lemma_found_in_sum(with, tail, fragment, at);
            lemma_nothing_appears(text.skip(n), pattern, with, fragment, at - with.len());
            let later = choose|later: int| found_at(text.skip(n), fragment, later);
            lemma_found_later(text, fragment, n, later);
        } else {
            assert(outcome[at] == with[at]);
            assert(!capital(fragment[0]) && !capital(fragment[1]));
            if at + 1 < with.len() {
                assert(outcome[at + 1] == with[at + 1]);
                assert(false);
            }
            let rest = fragment.skip(1);
            assert(plain(rest));
            assert(tail.subrange(0, rest.len() as int) =~= rest) by {
                assert forall|k: int| 0 <= k < rest.len() implies tail[k] == rest[k] by {
                    assert(outcome[at + (k + 1)] == tail[k]);
                }
            }
            lemma_beginning_stays(text.skip(n), pattern, with, rest);
            assert(text.subrange(n - 1, n - 1 + fragment.len()) =~= fragment) by {
                assert forall|k: int| 0 <= k < fragment.len() implies text[n - 1 + k]
                    == fragment[k] by {
                    if k == 0 {
                        assert(text.subrange(0, n)[n - 1] == pattern[n - 1]);
                    } else {
                        assert(text.skip(n).subrange(0, rest.len() as int)[k - 1] == rest[k - 1]);
                    }
                }
            }
            assert(found_at(text, fragment, n - 1));
        }
    } else if at == 0 {
        lemma_beginning_stays(text, pattern, with, fragment);
    } else {
        lemma_found_in_sum(
            seq![text[0]],
            replaced(text.skip(1), pattern, with),
            fragment,
            at,
        );
        lemma_nothing_appears(text.skip(1), pattern, with, fragment, at - 1);
        let later = choose|later: int| found_at(text.skip(1), fragment, later);
        lemma_found_later(text, fragment, 1, later);
    }
}

/// After an abbreviation its fragment is gone.
proof fn lemma_fragment_goes(text: Seq<char>, pattern: Seq<char>, with: Seq<char>, at: int)
    requires
        telling(pattern, with),
    ensures
        !found_at(replaced(text, pattern, with), pattern, at),
    decreases text.len(),
{
    let outcome = replaced(text, pattern, with);
    if found_at(outcome, pattern, at) {
        assert forall|k: int| 0 <= k < pattern.len() implies outcome[at + k] == pattern[k] by {
            assert(outcome.subrange(at, at + pattern.len())[k] == pattern[k]);
        }
        if text.len() == 0 {
        } else if found_at(text, pattern, 0) {
            let tail = replaced(text.skip(pattern.len() as int), pattern, with);
            if at >= with.len() {
                lemma_found_in_sum(with, tail, pattern, at);
                lemma_fragment_goes(
                    text.skip(pattern.len() as int),
                    pattern,
                    with,
                    at - with.len(),
                );
            } else {
                assert(outcome[at + 0] == with[at]);
                assert(!capital(pattern[0]) && !capital(pattern[1]));
                if at + 1 < with.len() {
                    assert(outcome[at + 1] == with[at + 1]);
                }
                assert(false);
            }
        } else if at == 0 {
            lemma_beginning_stays(text, pattern, with, pattern);
            assert(false);
        } else {
            lemma_found_in_sum(
                seq![text[0]],
                replaced(text.skip(1), pattern, with),
                pattern,
                at,
            );
            lemma_fragment_goes(text.skip(1), pattern, with, at - 1);
        }
    }
}

proof fn lemma_abbreviated_fragments_go(name: Seq<char>, n: int, i: int)
    requires
        0 <= i < n <= REPLACEMENT_COUNT,
    ensures
        !occurs(abbreviated(name, n), spec_replacement(i).0),
    decreases n,
{
    let before = abbreviated(name, n - 1);
    let (pattern, with) = spec_replacement(n - 1);
    let fragment = spec_replacement(i).0;
    lemma_abbreviations_tell(n - 1);
    lemma_abbreviations_tell(i);
    if occurs(abbreviated(name, n), fragment) {
        let at = choose|at: int| found_at(abbreviated(name, n), fragment, at);
        if i == n - 1 {
            lemma_fragment_goes(before, pattern, with, at);
        } else {
            lemma_nothing_appears(before, pattern, with, fragment, at);
            lemma_abbreviated_fragments_go(name, n - 1, i);
        }
    }
}

/// A compacted name holds none of the fragments that are abbreviated.
pub proof fn law_compacted_names_hold_no_fragment(name: Seq<char>, i: int)
    requires
        0 <= i < REPLACEMENT_COUNT,
    ensures
        !occurs(compacted(name), spec_replacement(i).0),
{
    lemma_abbreviated_fragments_go(name, REPLACEMENT_COUNT as int, i);
}

/// A compacted name stays as it is when it is compacted again.
pub proof fn law_compacting_twice_changes_nothing(name: Seq<char>)
    ensures
        compacted(compacted(name)) == compacted(name),
{
    assert forall|i: int| 0 <= i < REPLACEMENT_COUNT implies !occurs(
        compacted(name),
        (#[trigger] spec_replacement(i)).0,
    ) by {
        law_compacted_names_hold_no_fragment(name, i);
    }
    package_names::law_plain_names_pass_through(compacted(name));
}

/// The two texts meet at a digit.
spec fn meet_at_digit(a: Seq<char>, b: Seq<char>) -> bool {
    a.len() > 0 && b.len() > 0 && (digit(a.last()) || digit(b[0]))
}

/// A digit is in no fragment, so both sides of it are replaced apart.
proof fn lemma_replaced_apart(a: Seq<char>, b: Seq<char>, pattern: Seq<char>, with: Seq<char>)
    requires
        telling(pattern, with),
        a.len() == 0 || meet_at_digit(a, b),
    ensures
        replaced(a + b, pattern, with) == replaced(a, pattern, with) + replaced(b, pattern, with),
    decreases a.len(),
{
    let n = pattern.len() as int;
    if a.len() == 0 {
        assert(a + b =~= b);
        assert(replaced(a, pattern, with) + replaced(b, pattern, with) =~= replaced(
            b,
            pattern,
            with,
        ));
    } else {
        if found_at(a + b, pattern, 0) {
            assert forall|k: int| 0 <= k < n implies (a + b)[k] == pattern[k] by {
                assert((a + b).subrange(0, n)[k] == pattern[k]);
            }
            if n > a.len() {
                assert((a + b)[a.len() - 1] == a.last());
                assert((a + b)[a.len() as int] == b[0]);
                assert(digit(pattern[a.len() - 1]) || digit(pattern[a.len() as int]));
                assert(false);
            }
            assert(a.subrange(0, n) =~= pattern);
            assert(found_at(a, pattern, 0));
            let rest = a.skip(n);
            assert((a + b).skip(n) =~= rest + b);
            lemma_replaced_apart(rest, b, pattern, with);
            assert(with + (replaced(rest, pattern, with) + replaced(b, pattern, with)) =~= (with
                + replaced(rest, pattern, with)) + replaced(b, pattern, with));
        } else {
            assert(!found_at(a, pattern, 0)) by {
                if found_at(a, pattern, 0) {
                    assert((a + b).subrange(0, n) =~= a.subrange(0, n));
                }
            }
            let rest = a.skip(1);
            assert((a + b).skip(1) =~= rest + b);
            lemma_replaced_apart(rest, b, pattern, with);
            assert(seq![a[0]] + (replaced(rest, pattern, with) + replaced(b, pattern, with)) =~= (
            seq![a[0]] + replaced(rest, pattern, with)) + replaced(b, pattern, with));
        }
    }
}

/// A digit at the end stays there.
proof fn lemma_last_digit_stays(text: Seq<char>, pattern: Seq<char>, with: Seq<char>)
    requires
        telling(pattern, with),
        text.len() > 0,
        digit(text.last()),
    ensures
        replaced(text, pattern, with).len() > 0,
        replaced(text, pattern, with).last() == text.last(),
    decreases text.len(),
{
    let n = pattern.len() as int;
    if found_at(text, pattern, 0) {
        if n == text.len() {
            assert(text.subrange(0, n)[n - 1] == pattern[n - 1]);
            assert(false);
        }
        lemma_last_digit_stays(text.skip(n), pattern, with);
    } else if text.len() > 1 {
        lemma_last_digit_stays(text.skip(1), pattern, with);
    } else {
        assert(replaced(text.skip(1), pattern, with).len() == 0);
        assert(replaced(text, pattern, with) =~= text);
    }
}

/// A digit or a dot at the beginning stays there.
proof fn lemma_first_stays(text: Seq<char>, pattern: Seq<char>, with: Seq<char>)
    requires
        telling(pattern, with),
        text.len() > 0,
        digit(text[0]) || text[0] == '.',
    ensures
        replaced(text, pattern, with).len() > 0,
        replaced(text, pattern, with)[0] == text[0],
{
    if found_at(text, pattern, 0) {
        assert(text.subrange(0, pattern.len() as int)[0] == pattern[0]);
    }
}

proof fn lemma_abbreviated_apart(a: Seq<char>, b: Seq<char>, n: int)
    requires
        0 <= n <= REPLACEMENT_COUNT,
        meet_at_digit(a, b),
    ensures
        abbreviated(a + b, n) == abbreviated(a, n) + abbreviated(b, n),
        digit(a.last()) ==> abbreviated(a, n).len() > 0 && abbreviated(a, n).last() == a.last(),
        digit(b[0]) ==> abbreviated(b, n).len() > 0 && abbreviated(b, n)[0] == b[0],
    decreases n,
{
    if n > 0 {
        lemma_abbreviated_apart(a, b, n - 1);
        let (pattern, with) = spec_replacement(n - 1);
        let x = abbreviated(a, n - 1);
        let y = abbreviated(b, n - 1);
        lemma_abbreviations_tell(n - 1);
        if digit(a.last()) {
            lemma_last_digit_stays(x, pattern, with);
        }
        if digit(b[0]) {
            lemma_first_stays(y, pattern, with);
        }
        if x.len() > 0 && y.len() > 0 {
            lemma_replaced_apart(x, y, pattern, with);
        } else if x.len() == 0 {
            lemma_replaced_apart(x, y, pattern, with);
        } else {
            assert(x + y =~= x);
            assert(replaced(x, pattern, with) + replaced(y, pattern, with) =~= replaced(
                x,
                pattern,
                with,
            ));
        }
    }
}

proof fn lemma_abbreviated_first(name: Seq<char>, n: int)
    requires
        0 <= n <= REPLACEMENT_COUNT,
        name.len() > 0,
        name[0] == '.',
    ensures
        abbreviated(name, n).len() > 0,
        abbreviated(name, n)[0] == '.',
    decreases n,
{
    if n > 0 {
        lemma_abbreviated_first(name, n - 1);
        lemma_abbreviations_tell(n - 1);
        lemma_first_stays(
            abbreviated(name, n - 1),
            spec_replacement(n - 1).0,
            spec_replacement(n - 1).1,
        );
    }
}

/// What is too short for any fragment stays as it is.
pub proof fn lemma_short_stays(name: Seq<char>, from: int, n: int)
    requires
        0 <= from <= n <= REPLACEMENT_COUNT,
        abbreviated(name, from).len() < 6,
    ensures
        abbreviated(name, n) == abbreviated(name, from),
    decreases n,
{
    if from < n {
        lemma_short_stays(name, from, n - 1);
        lemma_abbreviations_tell(n - 1);
        chars::lemma_replaced_absent(
            abbreviated(name, n - 1),
            spec_replacement(n - 1).0,
            spec_replacement(n - 1).1,
        );
    }
}

proof fn lemma_number_compacts_to_itself(n: nat)
    ensures
        compacted(decimal(n)) == decimal(n),
{
    assert forall|i: int| 0 <= i < REPLACEMENT_COUNT implies !occurs(
        decimal(n),
        (#[trigger] spec_replacement(i)).0,
    ) by {
        let fragment = spec_replacement(i).0;
        lemma_abbreviations_tell(i);
        if occurs(decimal(n), fragment) {
            let at = choose|at: int| found_at(decimal(n), fragment, at);
            assert(decimal(n).subrange(at, at + fragment.len())[0] == fragment[0]);
            text::lemma_decimal_digits(n, at);
            assert(digit(fragment[0]));
        }
    }
    package_names::law_plain_names_pass_through(decimal(n));
}

proof fn lemma_whole_replaced(pattern: Seq<char>, with: Seq<char>)
    requires
        pattern.len() > 0,
    ensures
        replaced(pattern, pattern, with) == with,
{
    assert(pattern.subrange(0, pattern.len() as int) =~= pattern);
    assert(found_at(pattern, pattern, 0));
    assert(replaced(pattern.skip(pattern.len() as int), pattern, with).len() == 0);
    assert(replaced(pattern, pattern, with) =~= with);
}

proof fn lemma_stack_word_compacts()
    ensures
        compacted("encoder.encoders."@) == "E"@,
{
    reveal_strlit("encoder.encoders.");
    reveal_strlit("E");
    let name = "encoder.encoders."@;
    lemma_whole_replaced(name, "E"@);
    assert(abbreviated(name, 0) == name);
    assert(abbreviated(name, 1) == "E"@);
    lemma_short_stays(name, 1, REPLACEMENT_COUNT as int);
}

proof fn lemma_layer_word_compacts(first: bool)
    ensures
        compacted(
            if first {
                ".layers."@
            } else {
                ".encoder.layers."@
            },
        ) == ".L"@,
{
    reveal_strlit("encoder.encoders.");
    reveal_strlit(".encoder.layers.");
    reveal_strlit(".layers.");
    reveal_strlit(".L");
    let name = if first {
        ".layers."@
    } else {
        ".encoder.layers."@
    };
    assert(abbreviated(name, 0) == name);
    chars::lemma_replaced_absent(name, "encoder.encoders."@, "E"@);
    assert(abbreviated(name, 1) == name);
    if first {
        chars::lemma_replaced_absent(name, ".encoder.layers."@, ".L"@);
        assert(abbreviated(name, 2) == name);
        lemma_whole_replaced(name, ".L"@);
        assert(abbreviated(name, 3) == ".L"@);
        lemma_short_stays(name, 3, REPLACEMENT_COUNT as int);
    } else {
        lemma_whole_replaced(name, ".L"@);
        assert(abbreviated(name, 2) == ".L"@);
        lemma_short_stays(name, 2, REPLACEMENT_COUNT as int);
    }
}

/// The name of a tensor of a stack begins, compacted, with `E` and the stack; what follows
/// is compacted by itself.
pub proof fn lemma_stack_compacts(stack: nat, tail: Seq<char>)
    requires
        tail.len() > 0,
    ensures
        compacted(stack_name(stack, tail)) == "E"@ + (decimal(stack) + compacted(tail)),
{
    let n = REPLACEMENT_COUNT as int;
    let word = "encoder.encoders."@;
    reveal_strlit("encoder.encoders.");
    text::lemma_decimal_len(stack);
    text::lemma_decimal_digits(stack, 0);
    text::lemma_decimal_digits(stack, decimal(stack).len() - 1);
    lemma_stack_word_compacts();
    lemma_number_compacts_to_itself(stack);
    lemma_abbreviated_apart(word, decimal(stack), n);
    assert((word + decimal(stack)).last() == decimal(stack).last());
    lemma_abbreviated_apart(word + decimal(stack), tail, n);
    assert("E"@ + decimal(stack) + compacted(tail) =~= "E"@ + (decimal(stack) + compacted(tail)));
}

/// The compacted prefix of a layer.
pub open spec fn compact_prefix(stack: nat, layer: nat) -> Seq<char> {
    "E"@ + decimal(stack) + ".L"@ + decimal(layer)
}

/// The name of a tensor of a layer begins, compacted, with `E`, the stack,
/// `.L` and the layer; what follows is compacted by itself.
pub proof fn law_layer_names_compact(stack: nat, layer: nat, tail: Seq<char>)
    ensures
        compacted(prefix_of(stack, layer)) == compact_prefix(stack, layer),
        compacted(prefix_of(stack, layer) + tail) == compact_prefix(stack, layer) + compacted(
            tail,
        ),
{
    let n = REPLACEMENT_COUNT as int;
    let word = "encoder.encoders."@;
    let middle = if stack == 0 {
        ".layers."@
    } else {
        ".encoder.layers."@
    };
    reveal_strlit("encoder.encoders.");
    reveal_strlit(".encoder.layers.");
    reveal_strlit(".layers.");
    text::lemma_decimal_len(stack);
    text::lemma_decimal_len(layer);
    text::lemma_decimal_digits(stack, 0);
    text::lemma_decimal_digits(stack, decimal(stack).len() - 1);
    text::lemma_decimal_digits(layer, 0);
    text::lemma_decimal_digits(layer, decimal(layer).len() - 1);
    lemma_stack_word_compacts();
    lemma_layer_word_compacts(stack == 0);
    lemma_number_compacts_to_itself(stack);
    lemma_number_compacts_to_itself(layer);
    let one = word + decimal(stack);
    let two = one + middle;
    let prefix = two + decimal(layer);
    lemma_abbreviated_apart(word, decimal(stack), n);
    lemma_abbreviated_apart(one, middle, n);
    lemma_abbreviated_apart(two, decimal(layer), n);
    assert(prefix == prefix_of(stack, layer));
    if tail.len() > 0 {
        assert(prefix.last() == decimal(layer).last());
        lemma_abbreviated_apart(prefix, tail, n);
    } else {
        assert(prefix + tail =~= prefix);
        lemma_short_stays(tail, 0, n);
        assert(compact_prefix(stack, layer) + compacted(tail) =~= compact_prefix(stack, layer));
    }
}

/// Tensors of different layers keep different names.
pub proof fn law_layers_keep_their_names_apart(
    stack_a: nat,
    layer_a: nat,
    tail_a: Seq<char>,
    stack_b: nat,
    layer_b: nat,
    tail_b: Seq<char>,
)
    requires
        tail_a.len() > 0,
        tail_a[0] == '.',
        tail_b.len() > 0,
        tail_b[0] == '.',
        compacted(prefix_of(stack_a, layer_a) + tail_a) == compacted(
            prefix_of(stack_b, layer_b) + tail_b,
        ),
    ensures
        stack_a == stack_b,
        layer_a == layer_b,
        compacted(tail_a) == compacted(tail_b),
{
    reveal_strlit("E");
    reveal_strlit(".L");
    law_layer_names_compact(stack_a, layer_a, tail_a);
    law_layer_names_compact(stack_b, layer_b, tail_b);
    lemma_abbreviated_first(tail_a, REPLACEMENT_COUNT as int);
    lemma_abbreviated_first(tail_b, REPLACEMENT_COUNT as int);
    let inner_a = decimal(layer_a) + compacted(tail_a);
    let inner_b = decimal(layer_b) + compacted(tail_b);
    let outer_a = decimal(stack_a) + (".L"@ + inner_a);
    let outer_b = decimal(stack_b) + (".L"@ + inner_b);
    let whole_a = compact_prefix(stack_a, layer_a) + compacted(tail_a);
    let whole_b = compact_prefix(stack_b, layer_b) + compacted(tail_b);
    assert(whole_a =~= "E"@ + outer_a);
    assert(whole_b =~= "E"@ + outer_b);
    assert(outer_a =~= ("E"@ + outer_a).skip(1));
    assert(outer_b =~= ("E"@ + outer_b).skip(1));
    lemma_number_before_dot(stack_a, stack_b, ".L"@ + inner_a, ".L"@ + inner_b);
    assert(inner_a =~= (".L"@ + inner_a).skip(2));
    assert(inner_b =~= (".L"@ + inner_b).skip(2));
    lemma_number_before_dot(layer_a, layer_b, compacted(tail_a), compacted(tail_b));
}

} // verus!
