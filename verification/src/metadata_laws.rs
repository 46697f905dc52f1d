//! The metadata of a pack can be read back.

use vstd::prelude::*;
use crate::package_import::{
    comma_joined, pack_metadata, MetadataView, PackIdentity, XasrZipformerConfigJson,
};
use crate::text::{decimal, lemma_decimal_digits, lemma_decimal_len};

verus! {

/// The number that a text of decimal digits stands for.
pub open spec fn read_number(text: Seq<char>) -> int
    decreases text.len(),
{
    if text.len() == 0 {
        0
    } else {
        read_number(text.drop_last()) * 10 + (text.last() as int - '0' as int)
    }
}

/// A number that was written can be read.
pub proof fn law_written_numbers_can_be_read(n: nat)
    ensures
        read_number(decimal(n)) == n,
    decreases n,
{
    reveal_with_fuel(read_number, 2);
    if n < 10 {
        assert(decimal(n).drop_last() =~= Seq::<char>::empty());
    } else {
        law_written_numbers_can_be_read(n / 10);
        assert(decimal(n).drop_last() =~= decimal(n / 10));
    }
}

/// Where the last comma of a text stands, or before its beginning.
pub open spec fn last_comma(text: Seq<char>) -> int
    decreases text.len(),
{
    if text.len() == 0 || text.last() == ',' {
        text.len() - 1
    } else {
        last_comma(text.drop_last())
    }
}

/// The numbers between the commas of a text.
pub open spec fn read_list(text: Seq<char>) -> Seq<int>
    decreases text.len(),
{
    let at = last_comma(text);
    if text.len() == 0 {
        Seq::empty()
    } else if 0 <= at < text.len() {
        read_list(text.take(at)).push(read_number(text.skip(at + 1)))
    } else {
        seq![read_number(text)]
    }
}

proof fn lemma_last_comma(head: Seq<char>, n: nat, cut: int)
    requires
        0 <= cut <= decimal(n).len(),
        head.len() == 0 || head.last() == ',',
    ensures
        last_comma(head + decimal(n).take(cut)) == head.len() - 1,
    decreases cut,
{
    let text = head + decimal(n).take(cut);
    if cut == 0 {
        assert(text =~= head);
    } else {
        lemma_decimal_digits(n, cut - 1);
        assert(text.last() == decimal(n)[cut - 1]);
        assert(text.drop_last() =~= head + decimal(n).take(cut - 1));
        lemma_last_comma(head, n, cut - 1);
    }
}

/// A list of numbers that was written can be read.
pub proof fn law_written_lists_can_be_read(values: Seq<u32>)
    ensures
        read_list(comma_joined(values)) == values.map_values(|value: u32| value as int),
    decreases values.len(),
{
    reveal_strlit(",");
    let expected = values.map_values(|value: u32| value as int);
    if values.len() == 0 {
        assert(expected =~= Seq::<int>::empty());
    } else {
        let last = values.last() as nat;
        let whole = decimal(last);
        lemma_decimal_len(last);
        law_written_numbers_can_be_read(last);
        assert(whole.take(whole.len() as int) =~= whole);
        if values.len() == 1 {
            lemma_last_comma(Seq::empty(), last, whole.len() as int);
            assert(Seq::<char>::empty() + whole =~= whole);
            assert(expected =~= seq![last as int]);
        } else {
            let before = comma_joined(values.drop_last());
            let head = before + ","@;
            let text = comma_joined(values);
            assert(text =~= head + whole);
            assert(head.last() == ',');
            lemma_last_comma(head, last, whole.len() as int);
            law_written_lists_can_be_read(values.drop_last());
            assert(text.take(head.len() - 1) =~= before);
            assert(text.skip(head.len() as int) =~= whole);
            assert(expected =~= values.drop_last().map_values(|value: u32| value as int).push(
                last as int,
            ));
        }
    }
}

/// The keys of a pack that are the same for every model.
pub open spec fn fixed_keys() -> Seq<Seq<char>> {
    seq![
        "general.architecture"@,
        "openasr.model.id"@,
        "xasr.num_encoder_layers"@,
        "xasr.encoder_dims"@,
        "xasr.query_head_dims"@,
        "xasr.value_head_dims"@,
        "xasr.num_heads"@,
        "xasr.cnn_module_kernels"@,
        "xasr.left_context_len"@,
        "xasr.downsampling_factors"@,
        "xasr.num_stacks"@,
        "xasr.feature_dim"@,
        "xasr.decode_chunk_len"@,
        "xasr.joiner_dim"@,
        "xasr.decoder_context_size"@,
        "xasr.vocab_size"@,
        "xasr.blank_id"@,
        "tokenizer.ggml.tokens"@,
    ]
}

/// What a key of a pack is known by.
spec fn mark(key: Seq<char>) -> (nat, char) {
    (key.len(), key[7])
}

proof fn lemma_marks()
    ensures
        mark(fixed_keys()[0]) == (20nat, '.'),
        mark(fixed_keys()[1]) == (16nat, '.'),
        mark(fixed_keys()[2]) == (23nat, 'm'),
        mark(fixed_keys()[3]) == (17nat, 'c'),
        mark(fixed_keys()[4]) == (20nat, 'e'),
        mark(fixed_keys()[5]) == (20nat, 'l'),
        mark(fixed_keys()[6]) == (14nat, 'm'),
        mark(fixed_keys()[7]) == (23nat, 'n'),
        mark(fixed_keys()[8]) == (21nat, 'f'),
        mark(fixed_keys()[9]) == (25nat, 'w'),
        mark(fixed_keys()[10]) == (15nat, 'm'),
        mark(fixed_keys()[11]) == (16nat, 'a'),
        mark(fixed_keys()[12]) == (21nat, 'c'),
        mark(fixed_keys()[13]) == (15nat, 'i'),
        mark(fixed_keys()[14]) == (25nat, 'c'),
        mark(fixed_keys()[15]) == (15nat, 'c'),
        mark(fixed_keys()[16]) == (13nat, 'a'),
        mark(fixed_keys()[17]) == (21nat, 'e'),
{
    reveal_strlit("general.architecture");
    reveal_strlit("openasr.model.id");
    reveal_strlit("xasr.num_encoder_layers");
    reveal_strlit("xasr.encoder_dims");
    reveal_strlit("xasr.query_head_dims");
    reveal_strlit("xasr.value_head_dims");
    reveal_strlit("xasr.num_heads");
    reveal_strlit("xasr.cnn_module_kernels");
    reveal_strlit("xasr.left_context_len");
    reveal_strlit("xasr.downsampling_factors");
    reveal_strlit("xasr.num_stacks");
    reveal_strlit("xasr.feature_dim");
    reveal_strlit("xasr.decode_chunk_len");
    reveal_strlit("xasr.joiner_dim");
    reveal_strlit("xasr.decoder_context_size");
    reveal_strlit("xasr.vocab_size");
    reveal_strlit("xasr.blank_id");
    reveal_strlit("tokenizer.ggml.tokens");
}

/// The keys that the runtime chose are different from one another and from the fixed ones.
pub open spec fn keys_apart(identity: PackIdentity) -> bool {
    let chosen = chosen_keys(identity);
    &&& chosen.no_duplicates()
    &&& forall|i: int, j: int|
        #![trigger chosen[i], fixed_keys()[j]]
        0 <= i < chosen.len() && 0 <= j < fixed_keys().len() ==> chosen[i] != fixed_keys()[j]
}

/// The keys that the runtime chose.
pub open spec fn chosen_keys(identity: PackIdentity) -> Seq<Seq<char>> {
    seq![
        identity.package_version_key@,
        identity.model_family_key@,
        identity.model_architecture_key@,
        identity.audio_frontend_key@,
        identity.decode_policy_key@,
        identity.tokenizer_key@,
    ]
}

/// There is a value under the key, and no other.
pub open spec fn under(
    entries: Seq<(Seq<char>, MetadataView)>,
    key: Seq<char>,
    value: MetadataView,
) -> bool {
    &&& entries.contains((key, value))
    &&& forall|i: int|
        0 <= i < entries.len() && (#[trigger] entries[i]).0 == key ==> entries[i].1 == value
}

/// Under the key stands the text, and nothing else.
pub open spec fn text_under(
    entries: Seq<(Seq<char>, MetadataView)>,
    key: Seq<char>,
    text: Seq<char>,
) -> bool {
    under(entries, key, MetadataView::Text(text))
}

/// Under the key stands a text that reads as the list, and nothing else.
pub open spec fn list_under(
    entries: Seq<(Seq<char>, MetadataView)>,
    key: Seq<char>,
    list: Seq<u32>,
) -> bool {
    exists|text: Seq<char>|
        #[trigger] text_under(entries, key, text) && read_list(text) == list.map_values(
            |value: u32| value as int,
        )
}

/// The configuration can be read off the metadata: under the key of each field stands the
/// value of that field.
pub open spec fn reads_as(
    entries: Seq<(Seq<char>, MetadataView)>,
    config: XasrZipformerConfigJson,
) -> bool {
    &&& list_under(entries, "xasr.num_encoder_layers"@, config.num_encoder_layers@)
    &&& list_under(entries, "xasr.encoder_dims"@, config.encoder_dims@)
    &&& list_under(entries, "xasr.query_head_dims"@, config.query_head_dims@)
    &&& list_under(entries, "xasr.value_head_dims"@, config.value_head_dims@)
    &&& list_under(entries, "xasr.num_heads"@, config.num_heads@)
    &&& list_under(entries, "xasr.cnn_module_kernels"@, config.cnn_module_kernels@)
    &&& list_under(entries, "xasr.left_context_len"@, config.left_context_len@)
    &&& list_under(entries, "xasr.downsampling_factors"@, config.downsampling_factors@)
    &&& under(
        entries,
        "xasr.num_stacks"@,
        MetadataView::U32(config.num_encoder_layers@.len() as u32),
    )
    &&& under(entries, "xasr.feature_dim"@, MetadataView::U32(config.feature_dim))
    &&& under(entries, "xasr.decode_chunk_len"@, MetadataView::U32(config.decode_chunk_len))
    &&& under(entries, "xasr.joiner_dim"@, MetadataView::U32(config.joiner_dim))
    &&& under(entries, "xasr.decoder_context_size"@, MetadataView::U32(config.decoder_context_size))
    &&& under(entries, "xasr.vocab_size"@, MetadataView::U32(config.vocab_size))
    &&& under(entries, "xasr.blank_id"@, MetadataView::U32(config.blank_id))
}

/// The pack says what it is: its model, the tokens of its vocabulary, and under each key that
/// the runtime chose the identifier that belongs to it.
pub open spec fn identifies(
    entries: Seq<(Seq<char>, MetadataView)>,
    identity: PackIdentity,
    model_id: Seq<char>,
    tokens: Seq<Seq<char>>,
) -> bool {
    &&& text_under(entries, "general.architecture"@, identity.architecture_id@)
    &&& text_under(entries, "openasr.model.id"@, model_id)
    &&& under(entries, "tokenizer.ggml.tokens"@, MetadataView::TextArray(tokens))
    &&& text_under(entries, identity.package_version_key@, identity.package_version@)
    &&& text_under(entries, identity.model_family_key@, identity.model_family@)
    &&& text_under(entries, identity.model_architecture_key@, identity.architecture_id@)
    &&& text_under(entries, identity.audio_frontend_key@, identity.audio_frontend_id@)
    &&& text_under(entries, identity.decode_policy_key@, identity.decode_policy_id@)
    &&& text_under(entries, identity.tokenizer_key@, identity.tokenizer_id@)
}

/// Where an entry of the metadata takes its key from: a key that was chosen, or a fixed one.
spec fn source_of(i: int) -> (bool, int) {
    if i == 0 {
        (false, 0)
    } else if i < 7 {
        (true, i - 1)
    } else {
        (false, i - 6)
    }
}

proof fn lemma_keys_apart(
    identity: PackIdentity,
    config: XasrZipformerConfigJson,
    model_id: Seq<char>,
    tokens: Seq<Seq<char>>,
    i: int,
    j: int,
)
    requires
        keys_apart(identity),
        0 <= i < 24,
        0 <= j < 24,
        i != j,
    ensures
        ({
            let entries = pack_metadata(identity, config, model_id, tokens);
            entries[i].0 != entries[j].0
        }),
{
    lemma_marks();
    let entries = pack_metadata(identity, config, model_id, tokens);
    let chosen = chosen_keys(identity);
    let fixed = fixed_keys();
    let (a, k) = source_of(i);
    let (b, l) = source_of(j);
    assert(a ==> 0 <= k < 6 && entries[i].0 == chosen[k]);
    assert(!a ==> 0 <= k < 18 && entries[i].0 == fixed[k]);
    assert(b ==> 0 <= l < 6 && entries[j].0 == chosen[l]);
    assert(!b ==> 0 <= l < 18 && entries[j].0 == fixed[l]);
    if !a && !b {
        assert(mark(fixed[k]) != mark(fixed[l]));
    }
}

proof fn lemma_under(
    identity: PackIdentity,
    config: XasrZipformerConfigJson,
    model_id: Seq<char>,
    tokens: Seq<Seq<char>>,
    i: int,
)
    requires
        keys_apart(identity),
        0 <= i < 24,
    ensures
        ({
            let entries = pack_metadata(identity, config, model_id, tokens);
            under(entries, entries[i].0, entries[i].1)
        }),
{
    let entries = pack_metadata(identity, config, model_id, tokens);
    assert(entries.len() == 24);
    assert(entries[i] == (entries[i].0, entries[i].1));
    assert forall|j: int| 0 <= j < entries.len() && (#[trigger] entries[j]).0
        == entries[i].0 implies entries[j].1 == entries[i].1 by {
        if i != j {
            lemma_keys_apart(identity, config, model_id, tokens, i, j);
        }
    }
}

/// The metadata that is written for a configuration reads as that configuration.
pub proof fn law_metadata_reads_as_the_configuration(
    identity: PackIdentity,
    config: XasrZipformerConfigJson,
    model_id: Seq<char>,
    tokens: Seq<Seq<char>>,
)
    requires
        keys_apart(identity),
    ensures
        reads_as(pack_metadata(identity, config, model_id, tokens), config),
{
    let entries = pack_metadata(identity, config, model_id, tokens);
    lemma_under(identity, config, model_id, tokens, 8);
    law_written_lists_can_be_read(config.num_encoder_layers@);
    assert(text_under(
        entries,
        "xasr.num_encoder_layers"@,
        comma_joined(config.num_encoder_layers@),
    ));
    lemma_under(identity, config, model_id, tokens, 9);
    law_written_lists_can_be_read(config.encoder_dims@);
    assert(text_under(entries, "xasr.encoder_dims"@, comma_joined(config.encoder_dims@)));
    lemma_under(identity, config, model_id, tokens, 10);
    law_written_lists_can_be_read(config.query_head_dims@);
    assert(text_under(entries, "xasr.query_head_dims"@, comma_joined(config.query_head_dims@)));
    lemma_under(identity, config, model_id, tokens, 11);
    law_written_lists_can_be_read(config.value_head_dims@);
    assert(text_under(entries, "xasr.value_head_dims"@, comma_joined(config.value_head_dims@)));
    lemma_under(identity, config, model_id, tokens, 12);
    law_written_lists_can_be_read(config.num_heads@);
    assert(text_under(entries, "xasr.num_heads"@, comma_joined(config.num_heads@)));
    lemma_under(identity, config, model_id, tokens, 13);
    law_written_lists_can_be_read(config.cnn_module_kernels@);
    assert(text_under(
        entries,
        "xasr.cnn_module_kernels"@,
        comma_joined(config.cnn_module_kernels@),
    ));
    lemma_under(identity, config, model_id, tokens, 14);
    law_written_lists_can_be_read(config.left_context_len@);
    assert(text_under(entries, "xasr.left_context_len"@, comma_joined(config.left_context_len@)));
    lemma_under(identity, config, model_id, tokens, 15);
    law_written_lists_can_be_read(config.downsampling_factors@);
    assert(text_under(
        entries,
        "xasr.downsampling_factors"@,
        comma_joined(config.downsampling_factors@),
    ));
    lemma_under(identity, config, model_id, tokens, 16);
    lemma_under(identity, config, model_id, tokens, 17);
    lemma_under(identity, config, model_id, tokens, 18);
    lemma_under(identity, config, model_id, tokens, 19);
    lemma_under(identity, config, model_id, tokens, 20);
    lemma_under(identity, config, model_id, tokens, 21);
    lemma_under(identity, config, model_id, tokens, 22);
}

/// The metadata that is written for a model says what it is.
pub proof fn law_metadata_identifies_the_pack(
    identity: PackIdentity,
    config: XasrZipformerConfigJson,
    model_id: Seq<char>,
    tokens: Seq<Seq<char>>,
)
    requires
        keys_apart(identity),
    ensures
        identifies(
            pack_metadata(identity, config, model_id, tokens),
            identity,
            model_id,
            tokens,
        ),
{
    lemma_under(identity, config, model_id, tokens, 0);
    lemma_under(identity, config, model_id, tokens, 1);
    lemma_under(identity, config, model_id, tokens, 2);
    lemma_under(identity, config, model_id, tokens, 3);
    lemma_under(identity, config, model_id, tokens, 4);
    lemma_under(identity, config, model_id, tokens, 5);
    lemma_under(identity, config, model_id, tokens, 6);
    lemma_under(identity, config, model_id, tokens, 7);
    lemma_under(identity, config, model_id, tokens, 23);
}

} // verus!
