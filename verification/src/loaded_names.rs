//! The names under which tensors are loaded stay apart and short in a pack.

use vstd::prelude::*;
use crate::chars;
use crate::chars::{found_at, occurs, replaced};
use crate::encoder_loading::{lemma_number_before_dot, prefix_of, stack_name};
use crate::name_laws::{
    capital, compact_prefix, digit, law_layer_names_compact, law_layers_keep_their_names_apart,
    lemma_abbreviations_tell, lemma_short_stays, lemma_stack_compacts, telling,
};
use crate::package_names;
use crate::package_names::{
    abbreviated, compacted, name_bytes, spec_replacement, REPLACEMENT_COUNT,
};
use crate::text;
use crate::text::decimal;

verus! {

/// Two texts between which no fragment reaches across: the last character of one, and the
/// first two of the other, stand nowhere in a fragment.
spec fn parted(pattern: Seq<char>, x: char, y: char, z: char) -> bool {
    forall|k: int|
        0 <= k < pattern.len() - 1 && #[trigger] pattern[k] == x && pattern[k + 1] == y ==> k + 2
            < pattern.len() && pattern[k + 2] != z
}

/// Characters at which a name can be taken apart.
spec fn joint(x: char, y: char, z: char) -> bool {
    ||| digit(x)
    ||| digit(y)
    ||| x == '.' && y != 'e' && y != 'l'
    ||| x == '.' && y == 'e' && z == 'm'
    ||| x == '.' && y == 'l' && z == 'i'
    ||| x == 'r' && y == '.' && z != 'e' && z != 'l'
    ||| (x == 'e' || x == 'g' || x == 'j' || x == 'm' || x == 't') && y == '.'
    ||| (x == 'g' || x == 's') && y == '_'
    ||| x == 'e' && y == '_' && z == 'o'
    ||| x == 't' && y == '_' && (z == 'c' || z == 'n')
    ||| x == 'v' && y == '_' && z == 's'
    ||| x == 'b' && y == 'i'
}

#[verifier::spinoff_prover]
#[verifier::rlimit(80)]
proof fn lemma_joints_part(i: int, x: char, y: char, z: char)
    requires
        0 <= i < REPLACEMENT_COUNT,
        joint(x, y, z),
    ensures
        parted(spec_replacement(i).0, x, y, z),
{
    if i == 0 {
        reveal_strlit("encoder.encoders.");
    } else if i == 1 {
        reveal_strlit(".encoder.layers.");
    } else if i == 2 {
        reveal_strlit(".layers.");
    } else if i == 3 {
        reveal_strlit("encoder_embed.");
    } else if i == 4 {
        reveal_strlit("conv_module");
    } else if i == 5 {
        reveal_strlit("depthwise_conv.");
    } else if i == 6 {
        reveal_strlit("pointwise_conv");
    } else if i == 7 {
        reveal_strlit("chunkwise_conv");
    } else if i == 8 {
        reveal_strlit("causal_conv");
    } else if i == 9 {
        reveal_strlit("nonlin_attention.");
    } else if i == 10 {
        reveal_strlit("self_attn_weights.");
    } else if i == 11 {
        reveal_strlit("self_attn.");
    } else if i == 12 {
        reveal_strlit("feed_forward");
    } else if i == 13 {
        reveal_strlit("in_proj");
    } else if i == 14 {
        reveal_strlit("out_proj");
    } else if i == 15 {
        reveal_strlit("linear_pos");
    } else if i == 16 {
        reveal_strlit("bypass");
    } else if i == 17 {
        reveal_strlit("downsample");
    } else if i == 18 {
        reveal_strlit("convnext");
    } else if i == 19 {
        reveal_strlit("output_linear");
    } else {
        reveal_strlit("embedding");
    }
}

/// No occurrence of the pattern reaches across from one text into the other.
spec fn sealed(a: Seq<char>, b: Seq<char>, pattern: Seq<char>) -> bool {
    &&& b.len() > 0
    &&& forall|k: int|
        0 <= k < pattern.len() - 1 && #[trigger] pattern[k] == a.last() && pattern[k + 1] == b[0]
            ==> b.len() >= 2 && k + 2 < pattern.len() && pattern[k + 2] != b[1]
}

/// Texts that are sealed from each other are replaced apart.
proof fn lemma_replaced_parted(a: Seq<char>, b: Seq<char>, pattern: Seq<char>, with: Seq<char>)
    requires
        pattern.len() > 0,
        a.len() == 0 || sealed(a, b, pattern),
    ensures
        replaced(a + b, pattern, with) == replaced(a, pattern, with) + replaced(b, pattern, with),
    decreases a.len(),
{
    let n = pattern.len() as int;
    if a.len() == 0 {
        assert(a + b =~= b);
        assert(replaced(a, pattern, with) + replaced(b, pattern, with) =~= replaced(
            b,
            pattern,
            with,
        ));
    } else if found_at(a + b, pattern, 0) {
        let m = a.len() as int;
        assert forall|k: int| 0 <= k < n implies (a + b)[k] == #[trigger] pattern[k] by {
            assert((a + b).subrange(0, n)[k] == pattern[k]);
        }
        if n > m {
            assert(pattern[m - 1] == a.last());
            assert((a + b)[m] == pattern[m - 1 + 1]);
            assert(pattern[m - 1 + 1] == b[0]);
            assert((a + b)[m + 1] == pattern[m - 1 + 2]);
            assert(false);
        }
        assert(a.subrange(0, n) =~= pattern);
        assert(found_at(a, pattern, 0));
        let rest = a.skip(n);
        assert((a + b).skip(n) =~= rest + b);
        lemma_replaced_parted(rest, b, pattern, with);
        assert(with + (replaced(rest, pattern, with) + replaced(b, pattern, with)) =~= (with
            + replaced(rest, pattern, with)) + replaced(b, pattern, with));
    } else {
        assert(!found_at(a, pattern, 0)) by {
            if found_at(a, pattern, 0) {
                assert((a + b).subrange(0, n) =~= a.subrange(0, n));
            }
        }
        let rest = a.skip(1);
        assert((a + b).skip(1) =~= rest + b);
        lemma_replaced_parted(rest, b, pattern, with);
        assert(seq![a[0]] + (replaced(rest, pattern, with) + replaced(b, pattern, with)) =~= (
        seq![a[0]] + replaced(rest, pattern, with)) + replaced(b, pattern, with));
    }
}

/// The last character stays, or a capital letter takes its place.
proof fn lemma_last_stays(text: Seq<char>, pattern: Seq<char>, with: Seq<char>)
    requires
        telling(pattern, with),
        text.len() > 0,
    ensures
        replaced(text, pattern, with).len() > 0,
        replaced(text, pattern, with).last() == text.last() || capital(
            replaced(text, pattern, with).last(),
        ),
    decreases text.len(),
{
    let n = pattern.len() as int;
    if found_at(text, pattern, 0) {
        if n == text.len() {
            assert(text.subrange(0, n)[n - 1] == pattern[n - 1]);
            assert(replaced(text.skip(n), pattern, with).len() == 0);
            assert(replaced(text, pattern, with) =~= with);
        } else {
            lemma_last_stays(text.skip(n), pattern, with);
        }
    } else if text.len() > 1 {
        lemma_last_stays(text.skip(1), pattern, with);
    } else {
        assert(replaced(text.skip(1), pattern, with).len() == 0);
        assert(replaced(text, pattern, with) =~= text);
    }
}

/// Two characters begin the text, or a capital letter stands in their place.
spec fn begins(text: Seq<char>, y: char, z: char) -> bool {
    &&& text.len() > 0
    &&& capital(text[0]) || text[0] == y && text.len() >= 2 && (text[1] == z || capital(text[1]))
}

proof fn lemma_beginning_kept(
    text: Seq<char>,
    pattern: Seq<char>,
    with: Seq<char>,
    y: char,
    z: char,
)
    requires
        telling(pattern, with),
        begins(text, y, z),
    ensures
        begins(replaced(text, pattern, with), y, z),
{
    let outcome = replaced(text, pattern, with);
    if found_at(text, pattern, 0) {
        assert(text.subrange(0, pattern.len() as int)[0] == pattern[0]);
        assert(outcome[0] == with[0]);
        if with.len() >= 2 {
            assert(outcome[1] == with[1]);
        }
    } else {
        assert(outcome[0] == text[0]);
        if !capital(text[0]) {
            let rest = text.skip(1);
            assert(outcome =~= seq![text[0]] + replaced(rest, pattern, with));
            assert(outcome[1] == replaced(rest, pattern, with)[0]);
            if found_at(rest, pattern, 0) {
                assert(rest.subrange(0, pattern.len() as int)[0] == pattern[0]);
            }
        }
    }
}

proof fn lemma_abbreviated_parted(a: Seq<char>, b: Seq<char>, n: int)
    requires
        0 <= n <= REPLACEMENT_COUNT,
        a.len() > 0,
        b.len() >= 2,
        joint(a.last(), b[0], b[1]),
    ensures
        abbreviated(a + b, n) == abbreviated(a, n) + abbreviated(b, n),
        abbreviated(a, n).len() > 0,
        abbreviated(a, n).last() == a.last() || capital(abbreviated(a, n).last()),
        begins(abbreviated(b, n), b[0], b[1]),
    decreases n,
{
    if n > 0 {
        lemma_abbreviated_parted(a, b, n - 1);
        let (pattern, with) = spec_replacement(n - 1);
        let x = abbreviated(a, n - 1);
        let y = abbreviated(b, n - 1);
        lemma_abbreviations_tell(n - 1);
        lemma_joints_part(n - 1, a.last(), b[0], b[1]);
        assert(sealed(x, y, pattern)) by {
            assert forall|k: int|
                0 <= k < pattern.len() - 1 && #[trigger] pattern[k] == x.last() && pattern[k + 1]
                    == y[0] implies y.len() >= 2 && k + 2 < pattern.len() && pattern[k + 2]
                != y[1] by {
                assert(!capital(pattern[k]) && !capital(pattern[k + 1]));
                assert(k + 2 < pattern.len() && pattern[k + 2] != b[1]);
                assert(!capital(pattern[k + 2]));
            }
        }
        lemma_replaced_parted(x, y, pattern, with);
        lemma_last_stays(x, pattern, with);
        lemma_beginning_kept(y, pattern, with, b[0], b[1]);
    }
}

/// A name that is taken apart at a joint is compacted part by part.
proof fn lemma_parts_compact_apart(a: Seq<char>, b: Seq<char>)
    requires
        a.len() > 0,
        b.len() >= 2,
        joint(a.last(), b[0], b[1]),
    ensures
        compacted(a + b) == compacted(a) + compacted(b),
{
    lemma_abbreviated_parted(a, b, REPLACEMENT_COUNT as int);
}

/// A pattern does not occur where two of its characters never stand at their distance.
proof fn lemma_absent(text: Seq<char>, pattern: Seq<char>, m: int, l: int)
    requires
        0 <= m <= l < pattern.len(),
        forall|at: int|
            0 <= at <= text.len() - pattern.len() ==> #[trigger] text[at + m] != pattern[m]
                || text[at + l] != pattern[l],
    ensures
        !occurs(text, pattern),
{
    if occurs(text, pattern) {
        let at = choose|at: int| found_at(text, pattern, at);
        let part = text.subrange(at, at + pattern.len());
        assert(part[m] == pattern[m] && part[l] == pattern[l]);
        assert(text[at + m] == part[m] && text[at + l] == part[l]);
    }
}

proof fn lemma_untouched(name: Seq<char>, n: int)
    requires
        0 <= n <= REPLACEMENT_COUNT,
        forall|k: int| 0 <= k < n ==> !occurs(name, (#[trigger] spec_replacement(k)).0),
    ensures
        abbreviated(name, n) == name,
    decreases n,
{
    if n > 0 {
        lemma_untouched(name, n - 1);
        assert(!occurs(name, spec_replacement(n - 1).0));
        chars::lemma_replaced_absent(name, spec_replacement(n - 1).0, spec_replacement(n - 1).1);
    }
}

/// A fragment, and perhaps a dot behind it, becomes its abbreviation.
proof fn lemma_fragment_compacts(i: int, rest: Seq<char>)
    requires
        0 <= i < REPLACEMENT_COUNT,
        rest.len() + spec_replacement(i).1.len() < 6,
        forall|k: int|
            0 <= k < i ==> !occurs(
                spec_replacement(i).0 + rest,
                (#[trigger] spec_replacement(k)).0,
            ),
    ensures
        compacted(spec_replacement(i).0 + rest) == spec_replacement(i).1 + rest,
{
    let (pattern, with) = spec_replacement(i);
    let name = pattern + rest;
    lemma_abbreviations_tell(i);
    lemma_untouched(name, i);
    assert(name.subrange(0, pattern.len() as int) =~= pattern);
    assert(found_at(name, pattern, 0));
    assert(name.skip(pattern.len() as int) =~= rest);
    chars::lemma_replaced_absent(rest, pattern, with);
    assert(abbreviated(name, i + 1) == with + rest);
    lemma_short_stays(name, i + 1, REPLACEMENT_COUNT as int);
}

proof fn lemma_short_compacts(name: Seq<char>)
    requires
        name.len() < 6,
    ensures
        compacted(name) == name,
{
    assert(abbreviated(name, 0) == name);
    lemma_short_stays(name, 0, REPLACEMENT_COUNT as int);
}

/// The lengths of the fragments.
spec fn fragment_len(i: int) -> int {
    if i == 0 {
        17
    } else if i == 1 {
        16
    } else if i == 2 {
        8
    } else if i == 3 {
        14
    } else if i == 4 {
        11
    } else if i == 5 {
        15
    } else if i == 6 {
        14
    } else if i == 7 {
        14
    } else if i == 8 {
        11
    } else if i == 9 {
        17
    } else if i == 10 {
        18
    } else if i == 11 {
        10
    } else if i == 12 {
        12
    } else if i == 13 {
        7
    } else if i == 14 {
        8
    } else if i == 15 {
        10
    } else if i == 16 {
        6
    } else if i == 17 {
        10
    } else if i == 18 {
        8
    } else if i == 19 {
        13
    } else {
        9
    }
}

/// What is longer than a name does not occur in it.
#[verifier::spinoff_prover]
proof fn lemma_longer(i: int, name: Seq<char>)
    requires
        0 <= i < REPLACEMENT_COUNT,
    ensures
        fragment_len(i) > name.len() ==> !occurs(name, spec_replacement(i).0),
{
    if i == 0 {
        reveal_strlit("encoder.encoders.");
    } else if i == 1 {
        reveal_strlit(".encoder.layers.");
    } else if i == 2 {
        reveal_strlit(".layers.");
    } else if i == 3 {
        reveal_strlit("encoder_embed.");
    } else if i == 4 {
        reveal_strlit("conv_module");
    } else if i == 5 {
        reveal_strlit("depthwise_conv.");
    } else if i == 6 {
        reveal_strlit("pointwise_conv");
    } else if i == 7 {
        reveal_strlit("chunkwise_conv");
    } else if i == 8 {
        reveal_strlit("causal_conv");
    } else if i == 9 {
        reveal_strlit("nonlin_attention.");
    } else if i == 10 {
        reveal_strlit("self_attn_weights.");
    } else if i == 11 {
        reveal_strlit("self_attn.");
    } else if i == 12 {
        reveal_strlit("feed_forward");
    } else if i == 13 {
        reveal_strlit("in_proj");
    } else if i == 14 {
        reveal_strlit("out_proj");
    } else if i == 15 {
        reveal_strlit("linear_pos");
    } else if i == 16 {
        reveal_strlit("bypass");
    } else if i == 17 {
        reveal_strlit("downsample");
    } else if i == 18 {
        reveal_strlit("convnext");
    } else if i == 19 {
        reveal_strlit("output_linear");
    } else {
        reveal_strlit("embedding");
    }
}

#[verifier::spinoff_prover]
proof fn lemma_feed_forward()
    ensures
        compacted("feed_forward"@) == "FF"@,
{
    let name = "feed_forward"@;
    reveal_strlit("feed_forward");
    reveal_strlit("FF");
    reveal_strlit(".layers.");
    reveal_strlit("conv_module");
    reveal_strlit("causal_conv");
    reveal_strlit("self_attn.");
    lemma_absent(name, ".layers."@, 0, 0);
    lemma_absent(name, "conv_module"@, 0, 0);
    lemma_absent(name, "causal_conv"@, 0, 0);
    lemma_absent(name, "self_attn."@, 0, 0);
    assert forall|k: int| 0 <= k < 12 implies !occurs(
        name,
        (#[trigger] spec_replacement(k)).0,
    ) by {
        lemma_longer(k, name);
    }
    let rest = name.skip(12);
    assert(name =~= "feed_forward"@ + rest);
    lemma_fragment_compacts(12, rest);
    assert("FF"@ =~= "FF"@ + rest);
}

#[verifier::spinoff_prover]
proof fn lemma_self_attn()
    ensures
        compacted("self_attn"@) == "self_attn"@,
{
    let name = "self_attn"@;
    reveal_strlit("self_attn");
    reveal_strlit(".layers.");
    reveal_strlit("in_proj");
    reveal_strlit("out_proj");
    reveal_strlit("bypass");
    reveal_strlit("convnext");
    reveal_strlit("embedding");
    lemma_absent(name, ".layers."@, 0, 0);
    lemma_absent(name, "in_proj"@, 0, 0);
    lemma_absent(name, "out_proj"@, 0, 0);
    lemma_absent(name, "bypass"@, 0, 0);
    lemma_absent(name, "convnext"@, 0, 0);
    lemma_absent(name, "embedding"@, 0, 0);
    assert forall|k: int| 0 <= k < REPLACEMENT_COUNT implies !occurs(
        name,
        (#[trigger] spec_replacement(k)).0,
    ) by {
        lemma_longer(k, name);
    }
    package_names::law_plain_names_pass_through(name);
}

#[verifier::spinoff_prover]
proof fn lemma_nonlin_attention()
    ensures
        compacted("nonlin_attention."@) == "NA."@,
{
    let name = "nonlin_attention."@;
    reveal_strlit("nonlin_attention.");
    reveal_strlit("NA.");
    reveal_strlit("encoder.encoders.");
    reveal_strlit(".encoder.layers.");
    reveal_strlit(".layers.");
    reveal_strlit("encoder_embed.");
    reveal_strlit("conv_module");
    reveal_strlit("depthwise_conv.");
    reveal_strlit("pointwise_conv");
    reveal_strlit("chunkwise_conv");
    reveal_strlit("causal_conv");
    lemma_absent(name, "encoder.encoders."@, 0, 0);
    lemma_absent(name, ".encoder.layers."@, 0, 0);
    lemma_absent(name, ".layers."@, 0, 0);
    lemma_absent(name, "encoder_embed."@, 0, 0);
    lemma_absent(name, "conv_module"@, 0, 0);
    lemma_absent(name, "depthwise_conv."@, 0, 0);
    lemma_absent(name, "pointwise_conv"@, 0, 0);
    lemma_absent(name, "chunkwise_conv"@, 0, 0);
    lemma_absent(name, "causal_conv"@, 0, 0);
    assert forall|k: int| 0 <= k < 9 implies !occurs(
        name,
        (#[trigger] spec_replacement(k)).0,
    ) by {
        lemma_longer(k, name);
    }
    let rest = name.skip(17);
    assert(name =~= "nonlin_attention."@ + rest);
    lemma_fragment_compacts(9, rest);
    assert("NA."@ =~= "NA."@ + rest);
}

#[verifier::spinoff_prover]
proof fn lemma_self_attn_weights()
    ensures
        compacted("self_attn_weights."@) == "SAW."@,
{
    let name = "self_attn_weights."@;
    reveal_strlit("self_attn_weights.");
    reveal_strlit("SAW.");
    reveal_strlit("encoder.encoders.");
    reveal_strlit(".encoder.layers.");
    reveal_strlit(".layers.");
    reveal_strlit("encoder_embed.");
    reveal_strlit("conv_module");
    reveal_strlit("depthwise_conv.");
    reveal_strlit("pointwise_conv");
    reveal_strlit("chunkwise_conv");
    reveal_strlit("causal_conv");
    reveal_strlit("nonlin_attention.");
    lemma_absent(name, "encoder.encoders."@, 1, 1);
    lemma_absent(name, ".encoder.layers."@, 0, 0);
    lemma_absent(name, ".layers."@, 0, 0);
    lemma_absent(name, "encoder_embed."@, 1, 1);
    lemma_absent(name, "conv_module"@, 0, 0);
    lemma_absent(name, "depthwise_conv."@, 0, 0);
    lemma_absent(name, "pointwise_conv"@, 0, 0);
    lemma_absent(name, "chunkwise_conv"@, 0, 0);
    lemma_absent(name, "causal_conv"@, 0, 0);
    lemma_absent(name, "nonlin_attention."@, 0, 0);
    assert forall|k: int| 0 <= k < 10 implies !occurs(
        name,
        (#[trigger] spec_replacement(k)).0,
    ) by {
        lemma_longer(k, name);
    }
    let rest = name.skip(18);
    assert(name =~= "self_attn_weights."@ + rest);
    lemma_fragment_compacts(10, rest);
    assert("SAW."@ =~= "SAW."@ + rest);
}

#[verifier::spinoff_prover]
proof fn lemma_conv_module()
    ensures
        compacted("conv_module"@) == "CM"@,
{
    let name = "conv_module"@;
    reveal_strlit("conv_module");
    reveal_strlit("CM");
    reveal_strlit(".layers.");
    lemma_absent(name, ".layers."@, 0, 0);
    assert forall|k: int| 0 <= k < 4 implies !occurs(
        name,
        (#[trigger] spec_replacement(k)).0,
    ) by {
        lemma_longer(k, name);
    }
    let rest = name.skip(11);
    assert(name =~= "conv_module"@ + rest);
    lemma_fragment_compacts(4, rest);
    assert("CM"@ =~= "CM"@ + rest);
}

#[verifier::spinoff_prover]
proof fn lemma_in_proj()
    ensures
        compacted("in_proj"@) == "IP"@,
{
    let name = "in_proj"@;
    reveal_strlit("in_proj");
    reveal_strlit("IP");
    assert forall|k: int| 0 <= k < 13 implies !occurs(
        name,
        (#[trigger] spec_replacement(k)).0,
    ) by {
        lemma_longer(k, name);
    }
    let rest = name.skip(7);
    assert(name =~= "in_proj"@ + rest);
    lemma_fragment_compacts(13, rest);
    assert("IP"@ =~= "IP"@ + rest);
}

#[verifier::spinoff_prover]
proof fn lemma_dot_weight()
    ensures
        compacted(".weight"@) == ".weight"@,
{
    let name = ".weight"@;
    reveal_strlit(".weight");
    reveal_strlit("in_proj");
    reveal_strlit("bypass");
    lemma_absent(name, "in_proj"@, 0, 0);
    lemma_absent(name, "bypass"@, 0, 0);
    assert forall|k: int| 0 <= k < REPLACEMENT_COUNT implies !occurs(
        name,
        (#[trigger] spec_replacement(k)).0,
    ) by {
        lemma_longer(k, name);
    }
    package_names::law_plain_names_pass_through(name);
}

#[verifier::spinoff_prover]
proof fn lemma_out_proj()
    ensures
        compacted("out_proj"@) == "OP"@,
{
    let name = "out_proj"@;
    reveal_strlit("out_proj");
    reveal_strlit("OP");
    reveal_strlit(".layers.");
    reveal_strlit("in_proj");
    lemma_absent(name, ".layers."@, 0, 0);
    lemma_absent(name, "in_proj"@, 0, 0);
    assert forall|k: int| 0 <= k < 14 implies !occurs(
        name,
        (#[trigger] spec_replacement(k)).0,
    ) by {
        lemma_longer(k, name);
    }
    let rest = name.skip(8);
    assert(name =~= "out_proj"@ + rest);
    lemma_fragment_compacts(14, rest);
    assert("OP"@ =~= "OP"@ + rest);
}

#[verifier::spinoff_prover]
proof fn lemma_linear_pos_dot()
    ensures
        compacted("linear_pos."@) == "LP."@,
{
    let name = "linear_pos."@;
    reveal_strlit("linear_pos.");
    reveal_strlit("LP.");
    reveal_strlit(".layers.");
    reveal_strlit("conv_module");
    reveal_strlit("causal_conv");
    reveal_strlit("self_attn.");
    reveal_strlit("in_proj");
    reveal_strlit("out_proj");
    reveal_strlit("linear_pos");
    reveal_strlit("LP");
    lemma_absent(name, ".layers."@, 0, 0);
    lemma_absent(name, "conv_module"@, 0, 0);
    lemma_absent(name, "causal_conv"@, 0, 0);
    lemma_absent(name, "self_attn."@, 0, 0);
    lemma_absent(name, "in_proj"@, 6, 6);
    lemma_absent(name, "out_proj"@, 0, 0);
    assert forall|k: int| 0 <= k < 15 implies !occurs(
        name,
        (#[trigger] spec_replacement(k)).0,
    ) by {
        lemma_longer(k, name);
    }
    let rest = name.skip(10);
    assert(name =~= "linear_pos"@ + rest);
    lemma_fragment_compacts(15, rest);
    assert("LP."@ =~= "LP"@ + rest);
}

#[verifier::spinoff_prover]
proof fn lemma_weight()
    ensures
        compacted("weight"@) == "weight"@,
{
    let name = "weight"@;
    reveal_strlit("weight");
    reveal_strlit("bypass");
    lemma_absent(name, "bypass"@, 0, 0);
    assert forall|k: int| 0 <= k < REPLACEMENT_COUNT implies !occurs(
        name,
        (#[trigger] spec_replacement(k)).0,
    ) by {
        lemma_longer(k, name);
    }
    package_names::law_plain_names_pass_through(name);
}

#[verifier::spinoff_prover]
proof fn lemma_depthwise_conv()
    ensures
        compacted("depthwise_conv."@) == "DW."@,
{
    let name = "depthwise_conv."@;
    reveal_strlit("depthwise_conv.");
    reveal_strlit("DW.");
    reveal_strlit(".layers.");
    reveal_strlit("encoder_embed.");
    reveal_strlit("conv_module");
    lemma_absent(name, ".layers."@, 0, 0);
    lemma_absent(name, "encoder_embed."@, 1, 1);
    lemma_absent(name, "conv_module"@, 0, 0);
    assert forall|k: int| 0 <= k < 5 implies !occurs(
        name,
        (#[trigger] spec_replacement(k)).0,
    ) by {
        lemma_longer(k, name);
    }
    let rest = name.skip(15);
    assert(name =~= "depthwise_conv."@ + rest);
    lemma_fragment_compacts(5, rest);
    assert("DW."@ =~= "DW."@ + rest);
}

#[verifier::spinoff_prover]
proof fn lemma_causal_conv_dot()
    ensures
        compacted("causal_conv."@) == "CC."@,
{
    let name = "causal_conv."@;
    reveal_strlit("causal_conv.");
    reveal_strlit("CC.");
    reveal_strlit(".layers.");
    reveal_strlit("conv_module");
    reveal_strlit("causal_conv");
    reveal_strlit("CC");
    lemma_absent(name, ".layers."@, 0, 0);
    lemma_absent(name, "conv_module"@, 1, 1);
    assert forall|k: int| 0 <= k < 8 implies !occurs(
        name,
        (#[trigger] spec_replacement(k)).0,
    ) by {
        lemma_longer(k, name);
    }
    let rest = name.skip(11);
    assert(name =~= "causal_conv"@ + rest);
    lemma_fragment_compacts(8, rest);
    assert("CC."@ =~= "CC"@ + rest);
}

#[verifier::spinoff_prover]
proof fn lemma_chunkwise_conv_dot()
    ensures
        compacted("chunkwise_conv."@) == "KC."@,
{
    let name = "chunkwise_conv."@;
    reveal_strlit("chunkwise_conv.");
    reveal_strlit("KC.");
    reveal_strlit(".layers.");
    reveal_strlit("encoder_embed.");
    reveal_strlit("conv_module");
    reveal_strlit("depthwise_conv.");
    reveal_strlit("pointwise_conv");
    reveal_strlit("chunkwise_conv");
    reveal_strlit("KC");
    lemma_absent(name, ".layers."@, 0, 0);
    lemma_absent(name, "encoder_embed."@, 0, 0);
    lemma_absent(name, "conv_module"@, 1, 1);
    lemma_absent(name, "depthwise_conv."@, 0, 0);
    lemma_absent(name, "pointwise_conv"@, 0, 0);
    assert forall|k: int| 0 <= k < 7 implies !occurs(
        name,
        (#[trigger] spec_replacement(k)).0,
    ) by {
        lemma_longer(k, name);
    }
    let rest = name.skip(14);
    assert(name =~= "chunkwise_conv"@ + rest);
    lemma_fragment_compacts(7, rest);
    assert("KC."@ =~= "KC"@ + rest);
}

#[verifier::spinoff_prover]
proof fn lemma_chunkwise_conv()
    ensures
        compacted("chunkwise_conv"@) == "KC"@,
{
    let name = "chunkwise_conv"@;
    reveal_strlit("chunkwise_conv");
    reveal_strlit("KC");
    reveal_strlit(".layers.");
    reveal_strlit("encoder_embed.");
    reveal_strlit("conv_module");
    reveal_strlit("pointwise_conv");
    lemma_absent(name, ".layers."@, 0, 0);
    lemma_absent(name, "encoder_embed."@, 0, 0);
    lemma_absent(name, "conv_module"@, 1, 1);
    lemma_absent(name, "pointwise_conv"@, 0, 0);
    assert forall|k: int| 0 <= k < 7 implies !occurs(
        name,
        (#[trigger] spec_replacement(k)).0,
    ) by {
        lemma_longer(k, name);
    }
    let rest = name.skip(14);
    assert(name =~= "chunkwise_conv"@ + rest);
    lemma_fragment_compacts(7, rest);
    assert("KC"@ =~= "KC"@ + rest);
}

#[verifier::spinoff_prover]
proof fn lemma_scale()
    ensures
        compacted("_scale"@) == "_scale"@,
{
    let name = "_scale"@;
    reveal_strlit("_scale");
    reveal_strlit("bypass");
    lemma_absent(name, "bypass"@, 0, 0);
    assert forall|k: int| 0 <= k < REPLACEMENT_COUNT implies !occurs(
        name,
        (#[trigger] spec_replacement(k)).0,
    ) by {
        lemma_longer(k, name);
    }
    package_names::law_plain_names_pass_through(name);
}

#[verifier::spinoff_prover]
proof fn lemma_bypass_dot()
    ensures
        compacted("bypass."@) == "BY."@,
{
    let name = "bypass."@;
    reveal_strlit("bypass.");
    reveal_strlit("BY.");
    reveal_strlit("in_proj");
    reveal_strlit("bypass");
    reveal_strlit("BY");
    lemma_absent(name, "in_proj"@, 0, 0);
    assert forall|k: int| 0 <= k < 16 implies !occurs(
        name,
        (#[trigger] spec_replacement(k)).0,
    ) by {
        lemma_longer(k, name);
    }
    let rest = name.skip(6);
    assert(name =~= "bypass"@ + rest);
    lemma_fragment_compacts(16, rest);
    assert("BY."@ =~= "BY"@ + rest);
}

#[verifier::spinoff_prover]
proof fn lemma_bypass()
    ensures
        compacted("bypass"@) == "BY"@,
{
    let name = "bypass"@;
    reveal_strlit("bypass");
    reveal_strlit("BY");
    assert forall|k: int| 0 <= k < 16 implies !occurs(
        name,
        (#[trigger] spec_replacement(k)).0,
    ) by {
        lemma_longer(k, name);
    }
    let rest = name.skip(6);
    assert(name =~= "bypass"@ + rest);
    lemma_fragment_compacts(16, rest);
    assert("BY"@ =~= "BY"@ + rest);
}

#[verifier::spinoff_prover]
proof fn lemma_downsample()
    ensures
        compacted("downsample"@) == "DS"@,
{
    let name = "downsample"@;
    reveal_strlit("downsample");
    reveal_strlit("DS");
    reveal_strlit(".layers.");
    reveal_strlit("self_attn.");
    reveal_strlit("in_proj");
    reveal_strlit("out_proj");
    reveal_strlit("linear_pos");
    reveal_strlit("bypass");
    lemma_absent(name, ".layers."@, 0, 0);
    lemma_absent(name, "self_attn."@, 0, 0);
    lemma_absent(name, "in_proj"@, 0, 0);
    lemma_absent(name, "out_proj"@, 1, 1);
    lemma_absent(name, "linear_pos"@, 0, 0);
    lemma_absent(name, "bypass"@, 0, 0);
    assert forall|k: int| 0 <= k < 17 implies !occurs(
        name,
        (#[trigger] spec_replacement(k)).0,
    ) by {
        lemma_longer(k, name);
    }
    let rest = name.skip(10);
    assert(name =~= "downsample"@ + rest);
    lemma_fragment_compacts(17, rest);
    assert("DS"@ =~= "DS"@ + rest);
}

/// The parts of a layer, as they follow its prefix.
pub open spec fn layer_part(i: int) -> Seq<char> {
    if i == 0 {
        ".feed_forward1."@
    } else if i == 1 {
        ".feed_forward2."@
    } else if i == 2 {
        ".feed_forward3."@
    } else if i == 3 {
        ".self_attn1."@
    } else if i == 4 {
        ".self_attn2."@
    } else if i == 5 {
        ".nonlin_attention."@
    } else if i == 6 {
        ".self_attn_weights."@
    } else if i == 7 {
        ".conv_module1."@
    } else if i == 8 {
        ".conv_module2."@
    } else {
        "."@
    }
}

/// The parts of a layer in a pack.
pub open spec fn compact_part(i: int) -> Seq<char> {
    if i == 0 {
        ".FF1."@
    } else if i == 1 {
        ".FF2."@
    } else if i == 2 {
        ".FF3."@
    } else if i == 3 {
        ".self_attn1."@
    } else if i == 4 {
        ".self_attn2."@
    } else if i == 5 {
        ".NA."@
    } else if i == 6 {
        ".SAW."@
    } else if i == 7 {
        ".CM1."@
    } else if i == 8 {
        ".CM2."@
    } else {
        "."@
    }
}

#[verifier::spinoff_prover]
#[verifier::rlimit(60)]
proof fn lemma_part_compacts(i: int)
    requires
        0 <= i < 10,
    ensures
        compacted(layer_part(i)) == compact_part(i),
{
    if i == 0 {
        reveal_strlit(".feed_forward1.");
        reveal_strlit(".FF1.");
        reveal_strlit(".");
        reveal_strlit("feed_forward");
        reveal_strlit("1.");
        reveal_strlit("FF");
        lemma_short_compacts("."@);
        lemma_feed_forward();
        lemma_short_compacts("1."@);
        lemma_parts_compact_apart("feed_forward"@, "1."@);
        lemma_parts_compact_apart("."@, "feed_forward"@ + "1."@);
        assert(".feed_forward1."@ =~= "."@ + ("feed_forward"@ + "1."@));
        assert(".FF1."@ =~= "."@ + ("FF"@ + "1."@));
    } else if i == 1 {
        reveal_strlit(".feed_forward2.");
        reveal_strlit(".FF2.");
        reveal_strlit(".");
        reveal_strlit("feed_forward");
        reveal_strlit("2.");
        reveal_strlit("FF");
        lemma_short_compacts("."@);
        lemma_feed_forward();
        lemma_short_compacts("2."@);
        lemma_parts_compact_apart("feed_forward"@, "2."@);
        lemma_parts_compact_apart("."@, "feed_forward"@ + "2."@);
        assert(".feed_forward2."@ =~= "."@ + ("feed_forward"@ + "2."@));
        assert(".FF2."@ =~= "."@ + ("FF"@ + "2."@));
    } else if i == 2 {
        reveal_strlit(".feed_forward3.");
        reveal_strlit(".FF3.");
        reveal_strlit(".");
        reveal_strlit("feed_forward");
        reveal_strlit("3.");
        reveal_strlit("FF");
        lemma_short_compacts("."@);
        lemma_feed_forward();
        lemma_short_compacts("3."@);
        lemma_parts_compact_apart("feed_forward"@, "3."@);
        lemma_parts_compact_apart("."@, "feed_forward"@ + "3."@);
        assert(".feed_forward3."@ =~= "."@ + ("feed_forward"@ + "3."@));
        assert(".FF3."@ =~= "."@ + ("FF"@ + "3."@));
    } else if i == 3 {
        reveal_strlit(".self_attn1.");
        reveal_strlit(".");
        reveal_strlit("self_attn");
        reveal_strlit("1.");
        lemma_short_compacts("."@);
        lemma_self_attn();
        lemma_short_compacts("1."@);
        lemma_parts_compact_apart("self_attn"@, "1."@);
        lemma_parts_compact_apart("."@, "self_attn"@ + "1."@);
        assert(".self_attn1."@ =~= "."@ + ("self_attn"@ + "1."@));
        assert(".self_attn1."@ =~= "."@ + ("self_attn"@ + "1."@));
    } else if i == 4 {
        reveal_strlit(".self_attn2.");
        reveal_strlit(".");
        reveal_strlit("self_attn");
        reveal_strlit("2.");
        lemma_short_compacts("."@);
        lemma_self_attn();
        lemma_short_compacts("2."@);
        lemma_parts_compact_apart("self_attn"@, "2."@);
        lemma_parts_compact_apart("."@, "self_attn"@ + "2."@);
        assert(".self_attn2."@ =~= "."@ + ("self_attn"@ + "2."@));
        assert(".self_attn2."@ =~= "."@ + ("self_attn"@ + "2."@));
    } else if i == 5 {
        reveal_strlit(".nonlin_attention.");
        reveal_strlit(".NA.");
        reveal_strlit(".");
        reveal_strlit("nonlin_attention.");
        reveal_strlit("NA.");
        lemma_short_compacts("."@);
        lemma_nonlin_attention();
        lemma_parts_compact_apart("."@, "nonlin_attention."@);
        assert(".nonlin_attention."@ =~= "."@ + "nonlin_attention."@);
        assert(".NA."@ =~= "."@ + "NA."@);
    } else if i == 6 {
        reveal_strlit(".self_attn_weights.");
        reveal_strlit(".SAW.");
        reveal_strlit(".");
        reveal_strlit("self_attn_weights.");
        reveal_strlit("SAW.");
        lemma_short_compacts("."@);
        lemma_self_attn_weights();
        lemma_parts_compact_apart("."@, "self_attn_weights."@);
        assert(".self_attn_weights."@ =~= "."@ + "self_attn_weights."@);
        assert(".SAW."@ =~= "."@ + "SAW."@);
    } else if i == 7 {
        reveal_strlit(".conv_module1.");
        reveal_strlit(".CM1.");
        reveal_strlit(".");
        reveal_strlit("conv_module");
        reveal_strlit("1.");
        reveal_strlit("CM");
        lemma_short_compacts("."@);
        lemma_conv_module();
        lemma_short_compacts("1."@);
        lemma_parts_compact_apart("conv_module"@, "1."@);
        lemma_parts_compact_apart("."@, "conv_module"@ + "1."@);
        assert(".conv_module1."@ =~= "."@ + ("conv_module"@ + "1."@));
        assert(".CM1."@ =~= "."@ + ("CM"@ + "1."@));
    } else if i == 8 {
        reveal_strlit(".conv_module2.");
        reveal_strlit(".CM2.");
        reveal_strlit(".");
        reveal_strlit("conv_module");
        reveal_strlit("2.");
        reveal_strlit("CM");
        lemma_short_compacts("."@);
        lemma_conv_module();
        lemma_short_compacts("2."@);
        lemma_parts_compact_apart("conv_module"@, "2."@);
        lemma_parts_compact_apart("."@, "conv_module"@ + "2."@);
        assert(".conv_module2."@ =~= "."@ + ("conv_module"@ + "2."@));
        assert(".CM2."@ =~= "."@ + ("CM"@ + "2."@));
    } else {
        reveal_strlit(".");
        lemma_short_compacts("."@);
    }
}

/// The tensors of the parts.
pub open spec fn layer_leaf(i: int) -> Seq<char> {
    if i == 0 {
        "in_proj.weight"@
    } else if i == 1 {
        "in_proj.bias"@
    } else if i == 2 {
        "out_proj.weight"@
    } else if i == 3 {
        "out_proj.bias"@
    } else if i == 4 {
        "linear_pos.weight"@
    } else if i == 5 {
        "depthwise_conv.causal_conv.weight"@
    } else if i == 6 {
        "depthwise_conv.causal_conv.bias"@
    } else if i == 7 {
        "depthwise_conv.chunkwise_conv.weight"@
    } else if i == 8 {
        "depthwise_conv.chunkwise_conv.bias"@
    } else if i == 9 {
        "depthwise_conv.chunkwise_conv_scale"@
    } else if i == 10 {
        "norm.bias"@
    } else if i == 11 {
        "norm.log_scale"@
    } else if i == 12 {
        "bypass.bypass_scale"@
    } else {
        "bypass_mid.bypass_scale"@
    }
}

/// The tensors of the parts in a pack.
pub open spec fn compact_leaf(i: int) -> Seq<char> {
    if i == 0 {
        "IP.weight"@
    } else if i == 1 {
        "IP.bias"@
    } else if i == 2 {
        "OP.weight"@
    } else if i == 3 {
        "OP.bias"@
    } else if i == 4 {
        "LP.weight"@
    } else if i == 5 {
        "DW.CC.weight"@
    } else if i == 6 {
        "DW.CC.bias"@
    } else if i == 7 {
        "DW.KC.weight"@
    } else if i == 8 {
        "DW.KC.bias"@
    } else if i == 9 {
        "DW.KC_scale"@
    } else if i == 10 {
        "norm.bias"@
    } else if i == 11 {
        "norm.log_scale"@
    } else if i == 12 {
        "BY.BY_scale"@
    } else {
        "BY_mid.BY_scale"@
    }
}

#[verifier::spinoff_prover]
#[verifier::rlimit(60)]
proof fn lemma_leaf_compacts(i: int)
    requires
        0 <= i < 14,
    ensures
        compacted(layer_leaf(i)) == compact_leaf(i),
{
    if i == 0 {
        reveal_strlit("in_proj.weight");
        reveal_strlit("IP.weight");
        reveal_strlit("in_proj");
        reveal_strlit(".weight");
        reveal_strlit("IP");
        lemma_in_proj();
        lemma_dot_weight();
        lemma_parts_compact_apart("in_proj"@, ".weight"@);
        assert("in_proj.weight"@ =~= "in_proj"@ + ".weight"@);
        assert("IP.weight"@ =~= "IP"@ + ".weight"@);
    } else if i == 1 {
        reveal_strlit("in_proj.bias");
        reveal_strlit("IP.bias");
        reveal_strlit("in_proj");
        reveal_strlit(".bias");
        reveal_strlit("IP");
        lemma_in_proj();
        lemma_short_compacts(".bias"@);
        lemma_parts_compact_apart("in_proj"@, ".bias"@);
        assert("in_proj.bias"@ =~= "in_proj"@ + ".bias"@);
        assert("IP.bias"@ =~= "IP"@ + ".bias"@);
    } else if i == 2 {
        reveal_strlit("out_proj.weight");
        reveal_strlit("OP.weight");
        reveal_strlit("out_proj");
        reveal_strlit(".weight");
        reveal_strlit("OP");
        lemma_out_proj();
        lemma_dot_weight();
        lemma_parts_compact_apart("out_proj"@, ".weight"@);
        assert("out_proj.weight"@ =~= "out_proj"@ + ".weight"@);
        assert("OP.weight"@ =~= "OP"@ + ".weight"@);
    } else if i == 3 {
        reveal_strlit("out_proj.bias");
        reveal_strlit("OP.bias");
        reveal_strlit("out_proj");
        reveal_strlit(".bias");
        reveal_strlit("OP");
        lemma_out_proj();
        lemma_short_compacts(".bias"@);
        lemma_parts_compact_apart("out_proj"@, ".bias"@);
        assert("out_proj.bias"@ =~= "out_proj"@ + ".bias"@);
        assert("OP.bias"@ =~= "OP"@ + ".bias"@);
    } else if i == 4 {
        reveal_strlit("linear_pos.weight");
        reveal_strlit("LP.weight");
        reveal_strlit("linear_pos.");
        reveal_strlit("weight");
        reveal_strlit("LP.");
        lemma_linear_pos_dot();
        lemma_weight();
        lemma_parts_compact_apart("linear_pos."@, "weight"@);
        assert("linear_pos.weight"@ =~= "linear_pos."@ + "weight"@);
        assert("LP.weight"@ =~= "LP."@ + "weight"@);
    } else if i == 5 {
        reveal_strlit("depthwise_conv.causal_conv.weight");
        reveal_strlit("DW.CC.weight");
        reveal_strlit("depthwise_conv.");
        reveal_strlit("causal_conv.");
        reveal_strlit("weight");
        reveal_strlit("DW.");
        reveal_strlit("CC.");
        lemma_depthwise_conv();
        lemma_causal_conv_dot();
        lemma_weight();
        lemma_parts_compact_apart("causal_conv."@, "weight"@);
        lemma_parts_compact_apart("depthwise_conv."@, "causal_conv."@ + "weight"@);
        assert("depthwise_conv.causal_conv.weight"@
            =~= "depthwise_conv."@ + ("causal_conv."@ + "weight"@));
        assert("DW.CC.weight"@ =~= "DW."@ + ("CC."@ + "weight"@));
    } else if i == 6 {
        reveal_strlit("depthwise_conv.causal_conv.bias");
        reveal_strlit("DW.CC.bias");
        reveal_strlit("depthwise_conv.");
        reveal_strlit("causal_conv.");
        reveal_strlit("bias");
        reveal_strlit("DW.");
        reveal_strlit("CC.");
        lemma_depthwise_conv();
        lemma_causal_conv_dot();
        lemma_short_compacts("bias"@);
        lemma_parts_compact_apart("causal_conv."@, "bias"@);
        lemma_parts_compact_apart("depthwise_conv."@, "causal_conv."@ + "bias"@);
        assert("depthwise_conv.causal_conv.bias"@
            =~= "depthwise_conv."@ + ("causal_conv."@ + "bias"@));
        assert("DW.CC.bias"@ =~= "DW."@ + ("CC."@ + "bias"@));
    } else if i == 7 {
        reveal_strlit("depthwise_conv.chunkwise_conv.weight");
        reveal_strlit("DW.KC.weight");
        reveal_strlit("depthwise_conv.");
        reveal_strlit("chunkwise_conv.");
        reveal_strlit("weight");
        reveal_strlit("DW.");
        reveal_strlit("KC.");
        lemma_depthwise_conv();
        lemma_chunkwise_conv_dot();
        lemma_weight();
        lemma_parts_compact_apart("chunkwise_conv."@, "weight"@);
        lemma_parts_compact_apart("depthwise_conv."@, "chunkwise_conv."@ + "weight"@);
        assert("depthwise_conv.chunkwise_conv.weight"@
            =~= "depthwise_conv."@ + ("chunkwise_conv."@ + "weight"@));
        assert("DW.KC.weight"@ =~= "DW."@ + ("KC."@ + "weight"@));
    } else if i == 8 {
        reveal_strlit("depthwise_conv.chunkwise_conv.bias");
        reveal_strlit("DW.KC.bias");
        reveal_strlit("depthwise_conv.");
        reveal_strlit("chunkwise_conv.");
        reveal_strlit("bias");
        reveal_strlit("DW.");
        reveal_strlit("KC.");
        lemma_depthwise_conv();
        lemma_chunkwise_conv_dot();
        lemma_short_compacts("bias"@);
        lemma_parts_compact_apart("chunkwise_conv."@, "bias"@);
        lemma_parts_compact_apart("depthwise_conv."@, "chunkwise_conv."@ + "bias"@);
        assert("depthwise_conv.chunkwise_conv.bias"@
            =~= "depthwise_conv."@ + ("chunkwise_conv."@ + "bias"@));
        assert("DW.KC.bias"@ =~= "DW."@ + ("KC."@ + "bias"@));
    } else if i == 9 {
        reveal_strlit("depthwise_conv.chunkwise_conv_scale");
        reveal_strlit("DW.KC_scale");
        reveal_strlit("depthwise_conv.");
        reveal_strlit("chunkwise_conv");
        reveal_strlit("_scale");
        reveal_strlit("DW.");
        reveal_strlit("KC");
        lemma_depthwise_conv();
        lemma_chunkwise_conv();
        lemma_scale();
        lemma_parts_compact_apart("chunkwise_conv"@, "_scale"@);
        lemma_parts_compact_apart("depthwise_conv."@, "chunkwise_conv"@ + "_scale"@);
        assert("depthwise_conv.chunkwise_conv_scale"@
            =~= "depthwise_conv."@ + ("chunkwise_conv"@ + "_scale"@));
        assert("DW.KC_scale"@ =~= "DW."@ + ("KC"@ + "_scale"@));
    } else if i == 10 {
        reveal_strlit("norm.bias");
        reveal_strlit("norm");
        reveal_strlit(".bias");
        lemma_short_compacts("norm"@);
        lemma_short_compacts(".bias"@);
        lemma_parts_compact_apart("norm"@, ".bias"@);
        assert("norm.bias"@ =~= "norm"@ + ".bias"@);
        assert("norm.bias"@ =~= "norm"@ + ".bias"@);
    } else if i == 11 {
        reveal_strlit("norm.log_scale");
        reveal_strlit("norm");
        reveal_strlit(".log");
        reveal_strlit("_scale");
        lemma_short_compacts("norm"@);
        lemma_short_compacts(".log"@);
        lemma_scale();
        lemma_parts_compact_apart(".log"@, "_scale"@);
        lemma_parts_compact_apart("norm"@, ".log"@ + "_scale"@);
        assert("norm.log_scale"@ =~= "norm"@ + (".log"@ + "_scale"@));
        assert("norm.log_scale"@ =~= "norm"@ + (".log"@ + "_scale"@));
    } else if i == 12 {
        reveal_strlit("bypass.bypass_scale");
        reveal_strlit("BY.BY_scale");
        reveal_strlit("bypass.");
        reveal_strlit("bypass");
        reveal_strlit("_scale");
        reveal_strlit("BY.");
        reveal_strlit("BY");
        lemma_bypass_dot();
        lemma_bypass();
        lemma_scale();
        lemma_parts_compact_apart("bypass"@, "_scale"@);
        lemma_parts_compact_apart("bypass."@, "bypass"@ + "_scale"@);
        assert("bypass.bypass_scale"@ =~= "bypass."@ + ("bypass"@ + "_scale"@));
        assert("BY.BY_scale"@ =~= "BY."@ + ("BY"@ + "_scale"@));
    } else {
        reveal_strlit("bypass_mid.bypass_scale");
        reveal_strlit("BY_mid.BY_scale");
        reveal_strlit("bypass");
        reveal_strlit("_mid.");
        reveal_strlit("_scale");
        reveal_strlit("BY");
        lemma_bypass();
        lemma_short_compacts("_mid."@);
        lemma_scale();
        lemma_parts_compact_apart("bypass"@, "_scale"@);
        lemma_parts_compact_apart("_mid."@, "bypass"@ + "_scale"@);
        lemma_parts_compact_apart("bypass"@, "_mid."@ + ("bypass"@ + "_scale"@));
        assert("bypass_mid.bypass_scale"@ =~= "bypass"@ + ("_mid."@ + ("bypass"@ + "_scale"@)));
        assert("BY_mid.BY_scale"@ =~= "BY"@ + ("_mid."@ + ("BY"@ + "_scale"@)));
    }
}

/// The tensors of a stack that belong to none of its layers.
pub open spec fn stack_tail(i: int) -> Seq<char> {
    if i == 0 {
        ".downsample.bias"@
    } else {
        ".out_combiner.bypass_scale"@
    }
}

/// The tensors of a stack in a pack.
pub open spec fn compact_stack_tail(i: int) -> Seq<char> {
    if i == 0 {
        ".DS.bias"@
    } else {
        ".out_combiner.BY_scale"@
    }
}

#[verifier::spinoff_prover]
#[verifier::rlimit(60)]
proof fn lemma_stack_tail_compacts(i: int)
    requires
        0 <= i < 2,
    ensures
        compacted(stack_tail(i)) == compact_stack_tail(i),
{
    if i == 0 {
        reveal_strlit(".downsample.bias");
        reveal_strlit(".DS.bias");
        reveal_strlit(".");
        reveal_strlit("downsample");
        reveal_strlit(".bias");
        reveal_strlit("DS");
        lemma_short_compacts("."@);
        lemma_downsample();
        lemma_short_compacts(".bias"@);
        lemma_parts_compact_apart("downsample"@, ".bias"@);
        lemma_parts_compact_apart("."@, "downsample"@ + ".bias"@);
        assert(".downsample.bias"@ =~= "."@ + ("downsample"@ + ".bias"@));
        assert(".DS.bias"@ =~= "."@ + ("DS"@ + ".bias"@));
    } else {
        reveal_strlit(".out_combiner.bypass_scale");
        reveal_strlit(".out_combiner.BY_scale");
        reveal_strlit(".out");
        reveal_strlit("_comb");
        reveal_strlit("iner.");
        reveal_strlit("bypass");
        reveal_strlit("_scale");
        reveal_strlit("BY");
        lemma_short_compacts(".out"@);
        lemma_short_compacts("_comb"@);
        lemma_short_compacts("iner."@);
        lemma_bypass();
        lemma_scale();
        lemma_parts_compact_apart("bypass"@, "_scale"@);
        lemma_parts_compact_apart("iner."@, "bypass"@ + "_scale"@);
        lemma_parts_compact_apart("_comb"@, "iner."@ + ("bypass"@ + "_scale"@));
        lemma_parts_compact_apart(".out"@, "_comb"@ + ("iner."@ + ("bypass"@ + "_scale"@)));
        assert(".out_combiner.bypass_scale"@
            =~= ".out"@ + ("_comb"@ + ("iner."@ + ("bypass"@ + "_scale"@))));
        assert(".out_combiner.BY_scale"@
            =~= ".out"@ + ("_comb"@ + ("iner."@ + ("BY"@ + "_scale"@))));
    }
}

/// The tensors that a layer has: those of two projections, of the attention weights, of a
/// convolution module, or of the layer itself.
pub open spec fn asked(part: int, leaf: int) -> bool {
    ||| 0 <= part < 6 && 0 <= leaf < 4
    ||| part == 6 && (leaf == 0 || leaf == 1 || leaf == 4)
    ||| (part == 7 || part == 8) && (0 <= leaf < 4 || 5 <= leaf < 10)
    ||| part == 9 && 10 <= leaf < 14
}

/// The name of a tensor of a layer.
pub open spec fn layer_tensor(stack: nat, layer: nat, part: int, leaf: int) -> Seq<char> {
    prefix_of(stack, layer) + (layer_part(part) + layer_leaf(leaf))
}

/// The part of a compacted name behind the prefix of its layer.
spec fn part_key(tail: Seq<char>) -> int {
    if tail[1] == 'F' {
        tail[3] as int - '1' as int
    } else if tail[1] == 's' {
        3 + (tail[10] as int - '1' as int)
    } else if tail[1] == 'N' {
        5
    } else if tail[1] == 'S' {
        6
    } else if tail[1] == 'C' {
        7 + (tail[3] as int - '1' as int)
    } else {
        9
    }
}

/// The tensor of a compacted name behind its part.
spec fn leaf_key(leaf: Seq<char>) -> int {
    if leaf[0] == 'I' {
        if leaf[3] == 'w' {
            0
        } else {
            1
        }
    } else if leaf[0] == 'O' {
        if leaf[3] == 'w' {
            2
        } else {
            3
        }
    } else if leaf[0] == 'L' {
        4
    } else if leaf[0] == 'D' {
        if leaf[3] == 'C' {
            if leaf[6] == 'w' {
                5
            } else {
                6
            }
        } else if leaf[5] == '_' {
            9
        } else if leaf[6] == 'w' {
            7
        } else {
            8
        }
    } else if leaf[0] == 'n' {
        if leaf[5] == 'b' {
            10
        } else {
            11
        }
    } else if leaf[2] == '.' {
        12
    } else {
        13
    }
}

/// The length of a part in a pack.
spec fn part_len(part: int) -> int {
    if part == 3 || part == 4 {
        12
    } else if part == 5 {
        4
    } else if part == 9 {
        1
    } else {
        5
    }
}

#[verifier::spinoff_prover]
proof fn lemma_part_shape(i: int)
    requires
        0 <= i < 10,
    ensures
        layer_part(i).len() > 0,
        layer_part(i)[0] == '.',
        layer_part(i).last() == '.',
        compact_part(i).len() == part_len(i),
        compact_part(i)[0] == '.',
        i < 9 ==> part_key(compact_part(i)) == i && compact_part(i).len() > 3,
        i < 9 ==> (compact_part(i)[1] == 's' <==> i == 3 || i == 4),
        vstd::utf8::is_ascii_chars(compact_part(i)),
{
    if i == 0 {
        reveal_strlit(".feed_forward1.");
        reveal_strlit(".FF1.");
    } else if i == 1 {
        reveal_strlit(".feed_forward2.");
        reveal_strlit(".FF2.");
    } else if i == 2 {
        reveal_strlit(".feed_forward3.");
        reveal_strlit(".FF3.");
    } else if i == 3 {
        reveal_strlit(".self_attn1.");
    } else if i == 4 {
        reveal_strlit(".self_attn2.");
    } else if i == 5 {
        reveal_strlit(".nonlin_attention.");
        reveal_strlit(".NA.");
    } else if i == 6 {
        reveal_strlit(".self_attn_weights.");
        reveal_strlit(".SAW.");
    } else if i == 7 {
        reveal_strlit(".conv_module1.");
        reveal_strlit(".CM1.");
    } else if i == 8 {
        reveal_strlit(".conv_module2.");
        reveal_strlit(".CM2.");
    } else {
        reveal_strlit(".");
    }
}

#[verifier::spinoff_prover]
proof fn lemma_leaf_shape(i: int)
    requires
        0 <= i < 14,
    ensures
        layer_leaf(i).len() >= 2,
        joint('.', layer_leaf(i)[0], layer_leaf(i)[1]),
        leaf_key(compact_leaf(i)) == i,
        7 <= compact_leaf(i).len() <= 15,
        i < 4 || i == 4 ==> compact_leaf(i).len() <= 9,
        5 <= i < 10 ==> compact_leaf(i).len() <= 12,
        compact_leaf(i)[0] != 'F',
        compact_leaf(i)[0] != 's',
        compact_leaf(i)[0] != 'N',
        compact_leaf(i)[0] != 'S',
        compact_leaf(i)[0] != 'C',
        vstd::utf8::is_ascii_chars(compact_leaf(i)),
{
    if i == 0 {
        reveal_strlit("in_proj.weight");
        reveal_strlit("IP.weight");
    } else if i == 1 {
        reveal_strlit("in_proj.bias");
        reveal_strlit("IP.bias");
    } else if i == 2 {
        reveal_strlit("out_proj.weight");
        reveal_strlit("OP.weight");
    } else if i == 3 {
        reveal_strlit("out_proj.bias");
        reveal_strlit("OP.bias");
    } else if i == 4 {
        reveal_strlit("linear_pos.weight");
        reveal_strlit("LP.weight");
    } else if i == 5 {
        reveal_strlit("depthwise_conv.causal_conv.weight");
        reveal_strlit("DW.CC.weight");
    } else if i == 6 {
        reveal_strlit("depthwise_conv.causal_conv.bias");
        reveal_strlit("DW.CC.bias");
    } else if i == 7 {
        reveal_strlit("depthwise_conv.chunkwise_conv.weight");
        reveal_strlit("DW.KC.weight");
    } else if i == 8 {
        reveal_strlit("depthwise_conv.chunkwise_conv.bias");
        reveal_strlit("DW.KC.bias");
    } else if i == 9 {
        reveal_strlit("depthwise_conv.chunkwise_conv_scale");
        reveal_strlit("DW.KC_scale");
    } else if i == 10 {
        reveal_strlit("norm.bias");
    } else if i == 11 {
        reveal_strlit("norm.log_scale");
    } else if i == 12 {
        reveal_strlit("bypass.bypass_scale");
        reveal_strlit("BY.BY_scale");
    } else {
        reveal_strlit("bypass_mid.bypass_scale");
        reveal_strlit("BY_mid.BY_scale");
    }
}

/// A tensor of a layer is compacted part by part.
proof fn lemma_tail_compacts(part: int, leaf: int)
    requires
        asked(part, leaf),
    ensures
        compacted(layer_part(part) + layer_leaf(leaf)) == compact_part(part) + compact_leaf(leaf),
        part_key(compact_part(part) + compact_leaf(leaf)) == part,
        (compact_part(part) + compact_leaf(leaf)).len() <= 21,
        (compact_part(part) + compact_leaf(leaf))[0] == '.',
        vstd::utf8::is_ascii_chars(compact_part(part) + compact_leaf(leaf)),
{
    lemma_part_shape(part);
    lemma_leaf_shape(leaf);
    lemma_part_compacts(part);
    lemma_leaf_compacts(leaf);
    lemma_parts_compact_apart(layer_part(part), layer_leaf(leaf));
    let tail = compact_part(part) + compact_leaf(leaf);
    if part == 9 {
        assert(tail[1] == compact_leaf(leaf)[0]);
    } else {
        assert(tail[1] == compact_part(part)[1]);
        assert(tail[3] == compact_part(part)[3]);
        if part == 3 || part == 4 {
            assert(tail[10] == compact_part(part)[10]);
        }
    }
    vstd::utf8::is_ascii_chars_concat(tail, compact_part(part), compact_leaf(leaf));
}

proof fn lemma_number_is_ascii(n: nat)
    ensures
        vstd::utf8::is_ascii_chars(decimal(n)),
{
    assert forall|i: int| 0 <= i < decimal(n).len() implies '\0' <= #[trigger] decimal(n)[i]
        <= '\u{7f}' by {
        text::lemma_decimal_digits(n, i);
    }
}

/// The tensors of all layers keep different names, whatever the number of stacks and layers.
pub proof fn law_layer_tensors_keep_their_names_apart(
    stack_a: nat,
    layer_a: nat,
    part_a: int,
    leaf_a: int,
    stack_b: nat,
    layer_b: nat,
    part_b: int,
    leaf_b: int,
)
    requires
        asked(part_a, leaf_a),
        asked(part_b, leaf_b),
        compacted(layer_tensor(stack_a, layer_a, part_a, leaf_a)) == compacted(
            layer_tensor(stack_b, layer_b, part_b, leaf_b),
        ),
    ensures
        stack_a == stack_b,
        layer_a == layer_b,
        part_a == part_b,
        leaf_a == leaf_b,
{
    let tail_a = layer_part(part_a) + layer_leaf(leaf_a);
    let tail_b = layer_part(part_b) + layer_leaf(leaf_b);
    lemma_part_shape(part_a);
    lemma_part_shape(part_b);
    lemma_leaf_shape(leaf_a);
    lemma_leaf_shape(leaf_b);
    law_layers_keep_their_names_apart(stack_a, layer_a, tail_a, stack_b, layer_b, tail_b);
    lemma_tail_compacts(part_a, leaf_a);
    lemma_tail_compacts(part_b, leaf_b);
    let whole = compact_part(part_a) + compact_leaf(leaf_a);
    let other = compact_part(part_b) + compact_leaf(leaf_b);
    let n = compact_part(part_a).len() as int;
    assert(whole.skip(n) =~= compact_leaf(leaf_a));
    assert(other.skip(n) =~= compact_leaf(leaf_b));
}

/// The names of the tensors of layers are short in a pack: with one digit for the stack and
/// one for the layer they take at most 26 bytes.
pub proof fn law_layer_tensors_have_short_names(stack: nat, layer: nat, part: int, leaf: int)
    requires
        asked(part, leaf),
    ensures
        name_bytes(compacted(layer_tensor(stack, layer, part, leaf))) <= 24 + decimal(stack).len()
            + decimal(layer).len(),
        stack < 10 && layer < 10 ==> name_bytes(
            compacted(layer_tensor(stack, layer, part, leaf)),
        ) <= 26,
{
    reveal_strlit("E");
    reveal_strlit(".L");
    let tail = layer_part(part) + layer_leaf(leaf);
    let compact_tail = compact_part(part) + compact_leaf(leaf);
    law_layer_names_compact(stack, layer, tail);
    lemma_tail_compacts(part, leaf);
    lemma_number_is_ascii(stack);
    lemma_number_is_ascii(layer);
    let whole = compact_prefix(stack, layer) + compact_tail;
    assert(vstd::utf8::is_ascii_chars(whole)) by {
        assert forall|i: int| 0 <= i < whole.len() implies '\0' <= #[trigger] whole[i]
            <= '\u{7f}' by {
            let n = decimal(stack).len() as int;
            let m = decimal(layer).len() as int;
            if i == 0 {
            } else if i < 1 + n {
                assert(whole[i] == decimal(stack)[i - 1]);
            } else if i < 3 + n {
            } else if i < 3 + n + m {
                assert(whole[i] == decimal(layer)[i - 3 - n]);
            } else {
                assert(whole[i] == compact_tail[i - 3 - n - m]);
            }
        }
    }
    vstd::utf8::is_ascii_chars_encode_utf8(whole);
    lemma_one_digit(stack);
    lemma_one_digit(layer);
}

proof fn lemma_one_digit(n: nat)
    ensures
        n < 10 ==> decimal(n).len() == 1,
{
}

/// The tensors of a stack that belong to none of its layers keep different names, and none
/// has the name of a tensor of a layer.
pub proof fn law_stack_tensors_keep_their_names_apart(
    stack: nat,
    tail: int,
    other: nat,
    other_tail: int,
    layer: nat,
    part: int,
    leaf: int,
)
    requires
        0 <= tail < 2,
        0 <= other_tail < 2,
        asked(part, leaf),
    ensures
        compacted(stack_name(stack, stack_tail(tail))) == compacted(
            stack_name(other, stack_tail(other_tail)),
        ) ==> stack == other && tail == other_tail,
        compacted(stack_name(stack, stack_tail(tail))) != compacted(
            layer_tensor(other, layer, part, leaf),
        ),
        name_bytes(compacted(stack_name(stack, stack_tail(tail)))) <= 23 + decimal(stack).len(),
{
    reveal_strlit("E");
    reveal_strlit(".L");
    reveal_strlit(".downsample.bias");
    reveal_strlit(".DS.bias");
    reveal_strlit(".out_combiner.bypass_scale");
    reveal_strlit(".out_combiner.BY_scale");
    lemma_stack_tail_compacts(tail);
    lemma_stack_tail_compacts(other_tail);
    lemma_stack_compacts(stack, stack_tail(tail));
    lemma_stack_compacts(other, stack_tail(other_tail));
    law_layer_names_compact(other, layer, layer_part(part) + layer_leaf(leaf));
    lemma_tail_compacts(part, leaf);
    let own = compact_stack_tail(tail);
    let a = "E"@ + (decimal(stack) + own);
    let b = "E"@ + (decimal(other) + compact_stack_tail(other_tail));
    let inner = decimal(layer) + (compact_part(part) + compact_leaf(leaf));
    let c = "E"@ + (decimal(other) + (".L"@ + inner));
    assert(c =~= compact_prefix(other, layer) + (compact_part(part) + compact_leaf(leaf)));
    assert(a.skip(1) =~= decimal(stack) + own);
    assert(b.skip(1) =~= decimal(other) + compact_stack_tail(other_tail));
    assert(c.skip(1) =~= decimal(other) + (".L"@ + inner));
    if a == b {
        lemma_number_before_dot(stack, other, own, compact_stack_tail(other_tail));
        assert(own[1] == compact_stack_tail(other_tail)[1]);
    }
    if a == c {
        lemma_number_before_dot(stack, other, own, ".L"@ + inner);
        assert(own[1] == (".L"@ + inner)[1]);
    }
    lemma_number_is_ascii(stack);
    assert(vstd::utf8::is_ascii_chars(a)) by {
        assert forall|i: int| 0 <= i < a.len() implies '\0' <= #[trigger] a[i] <= '\u{7f}' by {
            let n = decimal(stack).len() as int;
            if 0 < i < 1 + n {
                assert(a[i] == decimal(stack)[i - 1]);
            } else if i >= 1 + n {
                assert(a[i] == own[i - 1 - n]);
            }
        }
    }
    vstd::utf8::is_ascii_chars_encode_utf8(a);
}

} // verus!
