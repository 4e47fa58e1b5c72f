//! Live transcription client: the messages it sends and what it makes of the
//! frames it receives.

use vstd::prelude::*;

use crate::json;
use crate::json::{base64_text, member, Nodes, Tree};
use crate::text;

verus! {

pub const MODEL: &'static str = "gemini-3.5-transcribe-live";

pub const WS_URL: &'static str =
    "wss://generativelanguage.googleapis.com/ws/google.ai.generativelanguage.v1beta.GenerativeService.BidiGenerateContent";

pub const PCM_MIME: &'static str = "audio/pcm;rate=16000";

/// Transcription modes of the settings menu. The first is the default.
pub const MODES: [&'static str; 2] = ["smart", "verbatim"];

/// Opens a turn of speech. The marker has to be nested in `realtimeInput`.
pub const ACTIVITY_START: &'static str = "{\"realtimeInput\":{\"activityStart\":{}}}";

/// Ends a turn of speech; sent on release, before `AUDIO_END`.
pub const ACTIVITY_END: &'static str = "{\"realtimeInput\":{\"activityEnd\":{}}}";

/// Ends the audio stream.
pub const AUDIO_END: &'static str = "{\"realtimeInput\":{\"audioStreamEnd\":true}}";

// ---------------------------------------------------------------------------
// Connecting
// ---------------------------------------------------------------------------
/// The address of a session.
pub fn ws_url(api_key: &str) -> (r: String)
    ensures
        r@ == WS_URL@ + "?key="@ + api_key@,
{
    let mut url = WS_URL.to_string();
    url.append("?key=");
    url.append(api_key);
    url
}

/// The canonical mode for what a user wrote, whatever its case and spacing.
/// Unknown input means the default.
pub open spec fn mode_for(want: Seq<char>) -> Seq<char> {
    if text::lowered(text::squeezed(want)) == "verbatim"@ {
        "verbatim"@
    } else {
        "smart"@
    }
}

/// The canonical mode for what a user wrote.
pub fn normalize_mode(want: &str) -> (r: &'static str)
    ensures
        r@ == mode_for(want@),
        r@ == MODES@[0]@ || r@ == MODES@[1]@,
{
    let w = text::to_lower(text::squeeze(want).as_str());
    if text::same(w.as_str(), "verbatim") {
        MODES[1]
    } else {
        MODES[0]
    }
}

/// A canonical mode is its own canonical mode.
pub proof fn law_mode_is_stable(want: Seq<char>)
    ensures
        mode_for(mode_for(want)) == mode_for(want),
        mode_for("smart"@) == "smart"@,
        mode_for("verbatim"@) == "verbatim"@,
{
    reveal_strlit("smart");
    reveal_strlit("verbatim");
    lemma_plain_word("verbatim"@);
    lemma_plain_word("smart"@);
    assert("smart"@ != "verbatim"@) by {
        assert("smart"@.len() == 5);
    }
}

/// A word of small letters is left alone by squeezing and lowering.
proof fn lemma_plain_word(s: Seq<char>)
    requires
        forall|i: int| 0 <= i < s.len() ==> 'a' <= #[trigger] s[i] <= 'z',
    ensures
        text::lowered(text::squeezed(s)) == s,
{
    text::lemma_squeezed_solid(s);
    assert(text::lowered(s) =~= s);
}

/// Case and spacing of what a user wrote do not matter.
pub proof fn law_mode_ignores_case_and_spacing(want: Seq<char>)
    ensures
        mode_for(text::lowered(want)) == mode_for(want),
        mode_for(text::squeezed(want)) == mode_for(want),
{
    text::lemma_squeeze_lower(want);
    text::lemma_squeeze_lower(text::squeezed(want));
}

/// The wire name of a mode.
pub open spec fn wire_mode(mode: Seq<char>) -> Seq<char> {
    if mode_for(mode) == "verbatim"@ {
        "VERBATIM"@
    } else {
        "SMART"@
    }
}

/// What stands before the language codes in the setup message.
pub open spec fn setup_head() -> Seq<char> {
    "{\"setup\":{\"model\":\"models/"@ + MODEL@
        + "\",\"generationConfig\":{\"responseModalities\":[\"TEXT\"]},\"inputAudioTranscription\":{\"languageCodes\":"@
}

/// The setup message: the model, text only, and how to transcribe.
pub open spec fn setup_message(codes: Seq<Seq<char>>, mode: Seq<char>) -> Seq<char> {
    setup_head() + json::string_array(codes) + ",\"mode\":\""@ + wire_mode(mode) + "\"}}}"@
}

/// The setup message for a session.
pub fn setup_json(language_codes: &[String], mode: &str) -> (r: String)
    ensures
        r@ == setup_message(text::views(language_codes@), mode@),
{
    let langs_json = match json::write_strings(language_codes) {
        Ok(s) => s,
        Err(_) => "[]".to_string(),
    };
    let wire = if text::same(normalize_mode(mode), "verbatim") {
        "VERBATIM"
    } else {
        "SMART"
    };
    let mut msg = "{\"setup\":{\"model\":\"models/".to_string();
    msg.append(MODEL);
    msg.append(
        "\",\"generationConfig\":{\"responseModalities\":[\"TEXT\"]},\"inputAudioTranscription\":{\"languageCodes\":",
    );
    msg.append(langs_json.as_str());
    msg.append(",\"mode\":\"");
    msg.append(wire);
    msg.append("\"}}}");
    msg
}

/// The setup message carries every language code, as a JSON string.
pub proof fn law_setup_carries_language_codes(codes: Seq<Seq<char>>, mode: Seq<char>, i: int)
    requires
        0 <= i < codes.len(),
    ensures
        text::contains(setup_message(codes, mode), json::quoted(codes[i])),
{
    let q = json::quoted(codes[i]);
    let k = lemma_quoted_list_holds(codes, i);
    let list = json::quoted_list(codes);
    let msg = setup_message(codes, mode);
    let at = setup_head().len() + 1 + k;
    assert(msg.subrange(at as int, at + q.len()) =~= list.subrange(k, k + q.len()));
    assert(text::occurs_at(msg, q, at as int));
}

/// The setup as a JSON document.
pub open spec fn setup_tree(codes: Seq<Seq<char>>, mode: Seq<char>) -> Tree {
    Tree::Object(
        seq![
            (
                "setup"@,
                Tree::Object(
                    seq![
                        ("model"@, Tree::Text("models/"@ + MODEL@)),
                        (
                            "generationConfig"@,
                            Tree::Object(
                                seq![
                                    ("responseModalities"@, Tree::List(json::texts(seq!["TEXT"@]))),
                                ],
                            ),
                        ),
                        ("inputAudioTranscription"@, transcription_tree(codes, mode)),
                    ],
                ),
            ),
        ],
    )
}

/// The part of the setup that says how to transcribe.
pub open spec fn transcription_tree(codes: Seq<Seq<char>>, mode: Seq<char>) -> Tree {
    Tree::Object(
        seq![
            ("languageCodes"@, Tree::List(json::texts(codes))),
            ("mode"@, Tree::Text(wire_mode(mode))),
        ],
    )
}

/// The setup message is JSON, and all of it can be read back: whatever the
/// language codes hold, quotes and backslashes too, they come out again, all of
/// them and in order, and so does the mode.
pub proof fn law_setup_is_read_back(codes: Seq<Seq<char>>, mode: Seq<char>)
    ensures
        json::read(setup_message(codes, mode)) == Some(
            (setup_tree(codes, mode), setup_message(codes, mode).len() as int),
        ),
{
    lemma_setup_is_written(codes, mode);
    json::law_json_round_trips(setup_tree(codes, mode), Seq::empty());
    assert(setup_message(codes, mode) + Seq::<char>::empty() =~= setup_message(codes, mode));
}

/// Two setup messages are alike only where the language codes are the same and
/// the modes mean the same.
pub proof fn law_setups_tell_apart(
    a: Seq<Seq<char>>,
    mode_a: Seq<char>,
    b: Seq<Seq<char>>,
    mode_b: Seq<char>,
)
    ensures
        setup_message(a, mode_a) == setup_message(b, mode_b) <==> a == b && mode_for(mode_a)
            == mode_for(mode_b),
{
    if setup_message(a, mode_a) == setup_message(b, mode_b) {
        law_setup_is_read_back(a, mode_a);
        law_setup_is_read_back(b, mode_b);
        lemma_setup_parts(a, mode_a);
        lemma_setup_parts(b, mode_b);
        json::lemma_texts_tell_apart(a, b);
        lemma_wire_modes();
    }
}

/// Where the language codes and the mode stand in the setup.
proof fn lemma_setup_parts(codes: Seq<Seq<char>>, mode: Seq<char>)
    ensures
        ({
            let members = setup_tree(codes, mode)->Object_0[0].1->Object_0[2].1->Object_0;
            &&& members[0].1 == Tree::List(json::texts(codes))
            &&& members[1].1 == Tree::Text(wire_mode(mode))
        }),
{
    assert(setup_tree(codes, mode)->Object_0[0].1->Object_0[2].1 == transcription_tree(
        codes,
        mode,
    ));
}

/// A mode and its canonical form give the same setup. Without language codes,
/// SMART stands in the message in smart mode alone.
pub proof fn law_setup_follows_the_mode(codes: Seq<Seq<char>>, mode: Seq<char>)
    ensures
        setup_message(codes, mode_for(mode)) == setup_message(codes, mode),
        text::contains(setup_message(Seq::empty(), mode), "SMART"@) <==> mode_for(mode)
            == "smart"@,
{
    law_mode_is_stable(mode);
    lemma_wire_modes();
    let none = Seq::<Seq<char>>::empty();
    let msg = setup_message(none, mode);
    let wire = wire_mode(mode);
    reveal_strlit("SMART");
    let before = setup_head() + json::string_array(none) + ",\"mode\":\""@;
    if mode_for(mode) == "verbatim"@ {
        lemma_no_capital_s(mode);
        if text::contains(msg, "SMART"@) {
            let i = choose|i: int| text::occurs_at(msg, "SMART"@, i);
            assert(msg.subrange(i, i + 5)[0] == msg[i]);
        }
    } else {
        let at = before.len() as int;
        assert(msg.subrange(at, at + 5) =~= "SMART"@);
        assert(text::occurs_at(msg, "SMART"@, at));
    }
}

proof fn lemma_wire_modes()
    ensures
        "VERBATIM"@ != "SMART"@,
        "verbatim"@ != "smart"@,
{
    reveal_strlit("VERBATIM");
    reveal_strlit("SMART");
    reveal_strlit("verbatim");
    reveal_strlit("smart");
    assert("VERBATIM"@.len() == 8 && "SMART"@.len() == 5);
    assert("verbatim"@.len() == 8 && "smart"@.len() == 5);
}

proof fn lemma_no_capital_s(mode: Seq<char>)
    requires
        mode_for(mode) == "verbatim"@,
    ensures
        forall|i: int|
            0 <= i < setup_message(Seq::empty(), mode).len() ==> #[trigger] setup_message(
                Seq::empty(),
                mode,
            )[i] != 'S',
{
    let a = "{\"setup\":{\"model\":\"models/"@;
    let b = MODEL@;
    let c =
        "\",\"generationConfig\":{\"responseModalities\":[\"TEXT\"]},\"inputAudioTranscription\":{\"languageCodes\":"@;
    let d = json::string_array(Seq::empty());
    let e = ",\"mode\":\""@;
    let f = "VERBATIM"@;
    let g = "\"}}}"@;
    reveal_strlit("{\"setup\":{\"model\":\"models/");
    reveal_strlit("gemini-3.5-transcribe-live");
    reveal_strlit(
        "\",\"generationConfig\":{\"responseModalities\":[\"TEXT\"]},\"inputAudioTranscription\":{\"languageCodes\":",
    );
    reveal_strlit(",\"mode\":\"");
    reveal_strlit("VERBATIM");
    reveal_strlit("\"}}}");
    assert(d =~= seq!['[', ']']);
    assert(forall|i: int| 0 <= i < a.len() ==> a[i] != 'S');
    assert(forall|i: int| 0 <= i < b.len() ==> b[i] != 'S');
    assert(forall|i: int| 0 <= i < c.len() ==> c[i] != 'S');
    assert(forall|i: int| 0 <= i < e.len() ==> e[i] != 'S');
    assert(forall|i: int| 0 <= i < f.len() ==> f[i] != 'S');
    assert(forall|i: int| 0 <= i < g.len() ==> g[i] != 'S');
}

proof fn lemma_setup_words()
    ensures
        json::quoted("setup"@) == seq!['"'] + "setup"@ + seq!['"'],
        json::quoted("model"@) == seq!['"'] + "model"@ + seq!['"'],
        json::quoted("generationConfig"@) == seq!['"'] + "generationConfig"@ + seq!['"'],
        json::quoted("responseModalities"@) == seq!['"'] + "responseModalities"@ + seq!['"'],
        json::quoted("TEXT"@) == seq!['"'] + "TEXT"@ + seq!['"'],
        json::quoted("inputAudioTranscription"@) == seq!['"'] + "inputAudioTranscription"@ + seq!['"'],
        json::quoted("languageCodes"@) == seq!['"'] + "languageCodes"@ + seq!['"'],
        json::quoted("mode"@) == seq!['"'] + "mode"@ + seq!['"'],
        json::quoted("VERBATIM"@) == seq!['"'] + "VERBATIM"@ + seq!['"'],
        json::quoted("SMART"@) == seq!['"'] + "SMART"@ + seq!['"'],
        json::quoted("models/"@ + MODEL@) == seq!['"'] + ("models/"@ + MODEL@) + seq!['"'],
{
    reveal_strlit("setup");
    json::lemma_plain_quoted("setup"@);
    reveal_strlit("model");
    json::lemma_plain_quoted("model"@);
    reveal_strlit("generationConfig");
    json::lemma_plain_quoted("generationConfig"@);
    reveal_strlit("responseModalities");
    json::lemma_plain_quoted("responseModalities"@);
    reveal_strlit("TEXT");
    json::lemma_plain_quoted("TEXT"@);
    reveal_strlit("inputAudioTranscription");
    json::lemma_plain_quoted("inputAudioTranscription"@);
    reveal_strlit("languageCodes");
    json::lemma_plain_quoted("languageCodes"@);
    reveal_strlit("mode");
    json::lemma_plain_quoted("mode"@);
    reveal_strlit("VERBATIM");
    json::lemma_plain_quoted("VERBATIM"@);
    reveal_strlit("SMART");
    json::lemma_plain_quoted("SMART"@);
    reveal_strlit("models/");
    reveal_strlit("gemini-3.5-transcribe-live");
    json::lemma_plain_quoted("models/"@ + MODEL@);
}

/// The setup before its second part, as JSON.
spec fn head_of_setup() -> Seq<char> {
    seq!['{'] + json::quoted("setup"@) + seq![':']
}

/// The setup's members before the language codes, as JSON.
spec fn head_of_members() -> Seq<char> {
    seq!['{'] + json::quoted("model"@) + seq![':'] + json::quoted("models/"@ + MODEL@) + seq![',']
        + json::quoted("generationConfig"@) + seq![':'] + (seq!['{'] + json::quoted(
        "responseModalities"@,
    ) + seq![':'] + (seq!['['] + json::quoted("TEXT"@) + seq![']']) + seq!['}']) + seq![',']
        + json::quoted("inputAudioTranscription"@) + seq![':']
}

/// What stands right before the language codes, as JSON.
spec fn head_of_codes() -> Seq<char> {
    seq!['{'] + json::quoted("languageCodes"@) + seq![':']
}

proof fn lemma_setup_head()
    ensures
        setup_head() == head_of_setup() + head_of_members() + head_of_codes(),
{
    lemma_setup_words();
    reveal_strlit("{\"setup\":{\"model\":\"models/");
    reveal_strlit(
        "\",\"generationConfig\":{\"responseModalities\":[\"TEXT\"]},\"inputAudioTranscription\":{\"languageCodes\":",
    );
    reveal_strlit("setup");
    reveal_strlit("model");
    reveal_strlit("models/");
    reveal_strlit("gemini-3.5-transcribe-live");
    reveal_strlit("generationConfig");
    reveal_strlit("responseModalities");
    reveal_strlit("TEXT");
    reveal_strlit("inputAudioTranscription");
    reveal_strlit("languageCodes");
    assert(setup_head() =~= head_of_setup() + head_of_members() + head_of_codes());
}

/// The text after the language codes, as JSON.
proof fn lemma_setup_tail(mode: Seq<char>)
    ensures
        ",\"mode\":\""@ + wire_mode(mode) + "\"}}}"@ == seq![','] + json::quoted("mode"@) + seq![':']
            + json::quoted(wire_mode(mode)) + seq!['}', '}', '}'],
{
    lemma_setup_words();
    reveal_strlit(",\"mode\":\"");
    reveal_strlit("mode");
    reveal_strlit("\"}}}");
    assert(",\"mode\":\""@ + wire_mode(mode) + "\"}}}"@ =~= seq![','] + json::quoted("mode"@)
        + seq![':'] + json::quoted(wire_mode(mode)) + seq!['}', '}', '}']);
}

proof fn lemma_nesting(
    p1: Seq<char>,
    p2: Seq<char>,
    p3: Seq<char>,
    x: Seq<char>,
    y: Seq<char>,
    z: Seq<char>,
)
    ensures
        p1 + (p2 + (p3 + x + y + z + seq!['}']) + seq!['}']) + seq!['}'] == p1 + p2 + p3 + x + (y
            + z + seq!['}', '}', '}']),
{
    assert(p1 + (p2 + (p3 + x + y + z + seq!['}']) + seq!['}']) + seq!['}'] =~= p1 + p2 + p3 + x
        + (y + z + seq!['}', '}', '}']));
}

proof fn lemma_setup_is_written(codes: Seq<Seq<char>>, mode: Seq<char>)
    ensures
        json::written(setup_tree(codes, mode)) == setup_message(codes, mode),
{
    let kinds = Tree::List(json::texts(seq!["TEXT"@]));
    let how = transcription_tree(codes, mode);
    let generation = Tree::Object(seq![("responseModalities"@, kinds)]);
    let model = ("model"@, Tree::Text("models/"@ + MODEL@));
    let inner = Tree::Object(
        seq![model, ("generationConfig"@, generation), ("inputAudioTranscription"@, how)],
    );
    let array = json::string_array(codes);
    let y = seq![','] + json::quoted("mode"@) + seq![':'];
    let z = json::quoted(wire_mode(mode));
    assert(json::written(how) == head_of_codes() + array + y + z + seq!['}']) by {
        json::lemma_string_array_is_written(codes);
        json::lemma_two_members(
            ("languageCodes"@, Tree::List(json::texts(codes))),
            ("mode"@, Tree::Text(wire_mode(mode))),
        );
        assert(json::written(how) =~= head_of_codes() + array + y + z + seq!['}']);
    }
    assert(json::written(inner) == head_of_members() + json::written(how) + seq!['}']) by {
        json::lemma_string_array_is_written(seq!["TEXT"@]);
        json::lemma_one_member(("responseModalities"@, kinds));
        json::lemma_three_members(
            model,
            ("generationConfig"@, generation),
            ("inputAudioTranscription"@, how),
        );
    }
    assert(json::written(setup_tree(codes, mode)) == head_of_setup() + json::written(inner) + seq![
        '}',
    ]) by {
        json::lemma_one_member(("setup"@, inner));
    }
    lemma_nesting(head_of_setup(), head_of_members(), head_of_codes(), array, y, z);
    lemma_setup_head();
    lemma_setup_tail(mode);
    let a = setup_head() + array;
    assert(setup_message(codes, mode) =~= a + (",\"mode\":\""@ + wire_mode(mode) + "\"}}}"@));
}

/// Where the `i`th item stands in a list of JSON strings.
proof fn lemma_quoted_list_holds(items: Seq<Seq<char>>, i: int) -> (k: int)
    requires
        0 <= i < items.len(),
    ensures
        text::occurs_at(json::quoted_list(items), json::quoted(items[i]), k),
    decreases items.len(),
{
    let list = json::quoted_list(items);
    let q = json::quoted(items[i]);
    if items.len() == 1 {
        assert(list.subrange(0, q.len() as int) =~= q);
        0
    } else if i == items.len() - 1 {
        let k = json::quoted_list(items.drop_last()).len() + 1int;
        assert(list.subrange(k, k + q.len()) =~= q);
        k
    } else {
        let front = json::quoted_list(items.drop_last());
        let k = lemma_quoted_list_holds(items.drop_last(), i);
        assert(list.subrange(k, k + q.len()) =~= front.subrange(k, k + q.len()));
        k
    }
}

// ---------------------------------------------------------------------------
// Audio frames
// ---------------------------------------------------------------------------
/// `String::clear` empties a string and keeps its buffer.
pub assume_specification[ String::clear ](s: &mut String)
    ensures
        final(s)@ == Seq::<char>::empty(),
;

/// `String::reserve` makes room and changes nothing that the string holds. The
/// bound keeps the buffer below the size at which the call panics: a character
/// takes at most four bytes. How much room there is afterwards is not stated.
pub assume_specification[ String::reserve ](s: &mut String, additional: usize)
    requires
        4 * old(s)@.len() + additional <= isize::MAX,
    ensures
        final(s)@ == old(s)@,
;

/// A sample as an unsigned 16-bit pattern.
pub open spec fn sample_bits(s: i16) -> int {
    if s < 0 {
        s + 0x1_0000
    } else {
        s as int
    }
}

/// Samples as 16-bit little-endian PCM.
pub open spec fn pcm_bytes(pcm: Seq<i16>) -> Seq<u8> {
    Seq::new(
        2 * pcm.len(),
        |i: int|
            if i % 2 == 0 {
                (sample_bits(pcm[i / 2]) % 256) as u8
            } else {
                (sample_bits(pcm[i / 2]) / 256) as u8
            },
    )
}

/// The samples that 16-bit little-endian PCM spells.
pub open spec fn pcm_samples(b: Seq<u8>) -> Seq<i16> {
    Seq::new(
        b.len() / 2,
        |i: int|
            {
                let u = b[2 * i] + 256 * b[2 * i + 1];
                (if u >= 0x8000 {
                    u - 0x1_0000
                } else {
                    u
                }) as i16
            },
    )
}

/// The message for one chunk of audio.
pub open spec fn audio_message(pcm: Seq<i16>) -> Seq<char> {
    AUDIO_HEAD@ + base64_text(pcm_bytes(pcm)) + "\",\"mimeType\":\""@ + PCM_MIME@ + "\"}}}"@
}

/// What stands before the base64 text of an audio message.
pub const AUDIO_HEAD: &'static str = "{\"realtimeInput\":{\"audio\":{\"data\":\"";

/// A chunk of audio as a JSON document.
pub open spec fn audio_tree(pcm: Seq<i16>) -> Tree {
    Tree::Object(
        seq![
            (
                "realtimeInput"@,
                Tree::Object(
                    seq![
                        (
                            "audio"@,
                            Tree::Object(
                                seq![
                                    ("data"@, Tree::Text(base64_text(pcm_bytes(pcm)))),
                                    ("mimeType"@, Tree::Text(PCM_MIME@)),
                                ],
                            ),
                        ),
                    ],
                ),
            ),
        ],
    )
}

/// The message of a chunk is JSON and holds all of it: reading it gives the
/// base64 text and the MIME type back, the base64 text spells two bytes for
/// each sample, and these, little end first, are the samples.
pub proof fn law_audio_message_round_trips(pcm: Seq<i16>)
    ensures
        json::read(audio_message(pcm)) == Some(
            (audio_tree(pcm), audio_message(pcm).len() as int),
        ),
        json::base64_bytes(base64_text(pcm_bytes(pcm))) == pcm_bytes(pcm),
        pcm_bytes(pcm).len() == 2 * pcm.len(),
        pcm_samples(pcm_bytes(pcm)) == pcm,
{
    lemma_audio_is_written(pcm);
    json::law_json_round_trips(audio_tree(pcm), Seq::empty());
    assert(audio_message(pcm) + Seq::<char>::empty() =~= audio_message(pcm));
    let b = pcm_bytes(pcm);
    json::law_base64_round_trips(b);
    assert forall|i: int| 0 <= i < pcm.len() implies pcm_samples(b)[i] == #[trigger] pcm[i] by {
        let s: i16 = pcm[i];
        lemma_sample(s);
        assert(b[2 * i] == (sample_bits(s) % 256) as u8);
        assert(b[2 * i + 1] == (sample_bits(s) / 256) as u8);
    }
    assert(pcm_samples(b) =~= pcm);
}

/// Different chunks give different messages.
pub proof fn law_audio_messages_tell_apart(a: Seq<i16>, b: Seq<i16>)
    requires
        audio_message(a) == audio_message(b),
    ensures
        a == b,
{
    law_audio_message_round_trips(a);
    law_audio_message_round_trips(b);
    let x = audio_tree(a)->Object_0[0].1->Object_0[0].1->Object_0[0].1;
    let y = audio_tree(b)->Object_0[0].1->Object_0[0].1->Object_0[0].1;
    assert(x->Text_0 == base64_text(pcm_bytes(a)));
    assert(y->Text_0 == base64_text(pcm_bytes(b)));
}

proof fn lemma_audio_is_written(pcm: Seq<i16>)
    ensures
        json::written(audio_tree(pcm)) == audio_message(pcm),
{
    let data = base64_text(pcm_bytes(pcm));
    let audio = Tree::Object(
        seq![("data"@, Tree::Text(data)), ("mimeType"@, Tree::Text(PCM_MIME@))],
    );
    let input = Tree::Object(seq![("audio"@, audio)]);
    json::lemma_two_members(("data"@, Tree::Text(data)), ("mimeType"@, Tree::Text(PCM_MIME@)));
    json::lemma_one_member(("audio"@, audio));
    json::lemma_one_member(("realtimeInput"@, input));
    assert forall|i: int| 0 <= i < data.len() implies json::escaped(#[trigger] data[i]) == seq![
        data[i],
    ] by {
        json::law_base64_needs_no_escape(pcm_bytes(pcm), i);
    }
    json::lemma_plain_quoted(data);
    reveal_strlit("data");
    reveal_strlit("mimeType");
    reveal_strlit("audio");
    reveal_strlit("realtimeInput");
    reveal_strlit("audio/pcm;rate=16000");
    reveal_strlit("{\"realtimeInput\":{\"audio\":{\"data\":\"");
    reveal_strlit("\",\"mimeType\":\"");
    reveal_strlit("\"}}}");
    json::lemma_plain_quoted("data"@);
    json::lemma_plain_quoted("mimeType"@);
    json::lemma_plain_quoted("audio"@);
    json::lemma_plain_quoted("realtimeInput"@);
    json::lemma_plain_quoted(PCM_MIME@);
    assert(json::written(audio_tree(pcm)) =~= audio_message(pcm));
}

proof fn lemma_sample(s: i16)
    ensures
        0 <= sample_bits(s) < 0x1_0000,
        sample_bits(s) % 256 + 256 * (sample_bits(s) / 256) == sample_bits(s),
{
}

/// The message for one chunk of audio.
pub fn realtime_audio_json(pcm: &[i16]) -> (r: String)
    requires
        audio_fits(pcm@.len()),
    ensures
        r@ == audio_message(pcm@),
{
    let mut msg = String::new();
    realtime_audio_json_into(pcm, &mut msg);
    msg
}

/// The message of `n` samples, with the room that is set aside for it, stays
/// below the largest size that an allocation can have.
pub open spec fn audio_fits(n: nat) -> bool {
    4 * ((2 * n + 2) / 3) + 256 <= isize::MAX
}

/// Replaces what `buf` holds by the message for one chunk of audio. The buffer
/// is reused, so that a warm one does not grow for chunks of the same size.
pub fn realtime_audio_json_into(pcm: &[i16], buf: &mut String)
    requires
        audio_fits(pcm@.len()),
    ensures
        final(buf)@ == audio_message(pcm@),
{
    buf.clear();
    let bytes = le_bytes(pcm);
    let b64_len: usize = (bytes.len() + 2) / 3 * 4;
    buf.reserve(b64_len + 96);
    proof {
        reveal_strlit("{\"realtimeInput\":{\"audio\":{\"data\":\"");
    }
    buf.append(AUDIO_HEAD);
    json::append_base64(&bytes, buf);
    buf.append("\",\"mimeType\":\"");
    buf.append(PCM_MIME);
    buf.append("\"}}}");
    assert(buf@ =~= audio_message(pcm@));
}

/// Samples as 16-bit little-endian PCM.
fn le_bytes(pcm: &[i16]) -> (b: Vec<u8>)
    requires
        audio_fits(pcm@.len()),
    ensures
        b@ == pcm_bytes(pcm@),
{
    let mut b: Vec<u8> = Vec::with_capacity(pcm.len() * 2);
    let mut i: usize = 0;
    while i < pcm.len()
        invariant
            i <= pcm@.len(),
            b@ == pcm_bytes(pcm@.take(i as int)),
        decreases pcm@.len() - i,
    {
        let s: i16 = pcm[i];
        let u: u32 = if s < 0 {
            (s as i32 + 0x1_0000) as u32
        } else {
            s as u32
        };
        b.push((u % 256) as u8);
        b.push((u / 256) as u8);
        i = i + 1;
        assert(b@ =~= pcm_bytes(pcm@.take(i as int)));
    }
    assert(pcm@.take(i as int) =~= pcm@);
    b
}

// ---------------------------------------------------------------------------
// Server events
// ---------------------------------------------------------------------------
/// One parsed server event.
#[derive(Debug)]
pub struct TranscriptEvent {
    /// Low-latency preview; each one replaces the last.
    pub interim: Option<String>,
    /// A finished segment, to be appended.
    pub finalized: Option<String>,
    /// The session is over: the server closed it, is about to go away or
    /// reported an error, or nothing more will come.
    pub closed: bool,
}

/// What an event says.
pub struct EventView {
    pub interim: Option<Seq<char>>,
    pub finalized: Option<Seq<char>>,
    pub closed: bool,
}

/// The text of a string that may be there.
pub open spec fn opt_view(s: Option<String>) -> Option<Seq<char>> {
    match s {
        Some(t) => Some(t@),
        None => None,
    }
}

impl View for TranscriptEvent {
    type V = EventView;

    open spec fn view(&self) -> EventView {
        EventView {
            interim: opt_view(self.interim),
            finalized: opt_view(self.finalized),
            closed: self.closed,
        }
    }
}

impl EventView {
    /// Nothing to report.
    pub open spec fn empty() -> EventView {
        EventView { interim: None, finalized: None, closed: false }
    }

    /// The session is over, and nothing else.
    pub open spec fn over() -> EventView {
        EventView { interim: None, finalized: None, closed: true }
    }
}

impl Default for TranscriptEvent {
    fn default() -> (r: TranscriptEvent)
        ensures
            r@ == EventView::empty(),
    {
        TranscriptEvent { interim: None, finalized: None, closed: false }
    }
}

/// The event of a session that the server closed.
pub fn closed_event() -> (r: TranscriptEvent)
    ensures
        r@ == EventView::over(),
{
    TranscriptEvent { interim: None, finalized: None, closed: true }
}

/// A text that says something: empty ones do not count.
pub open spec fn said(t: Option<Seq<char>>) -> Option<Seq<char>> {
    match t {
        Some(s) => if s.len() > 0 {
            Some(s)
        } else {
            None
        },
        None => None,
    }
}

/// The text of a borrowed string that may be there.
pub open spec fn opt_str_view(s: Option<&str>) -> Option<Seq<char>> {
    match s {
        Some(t) => Some(t@),
        None => None,
    }
}

/// The event of a frame with server content, from what stands in it: the
/// preview text, the final text, and whether generation is complete.
pub fn content_event(
    interim: Option<&str>,
    finalized: Option<&str>,
    complete: Option<bool>,
) -> (r: TranscriptEvent)
    ensures
        r@ == (EventView {
            interim: said(opt_str_view(interim)),
            finalized: said(opt_str_view(finalized)),
            closed: complete == Some(true),
        }),
        r.interim is Some <==> (interim matches Some(t) && t@.len() > 0),
        r.interim matches Some(t) ==> t@ == interim->0@,
        r.finalized is Some <==> (finalized matches Some(t) && t@.len() > 0),
        r.finalized matches Some(t) ==> t@ == finalized->0@,
        r.closed <==> complete == Some(true),
{
    let mut ev = TranscriptEvent::default();
    if let Some(t) = interim {
        if !t.is_empty() {
            ev.interim = Some(t.to_string());
        }
    }
    if let Some(t) = finalized {
        if !t.is_empty() {
            ev.finalized = Some(t.to_string());
        }
    }
    if let Some(done) = complete {
        ev.closed = done;
    }
    ev
}

/// The event that a server document means. Without server content, a notice
/// that the server is about to go away, or an error, ends the session; any
/// other document means nothing, and neither does a text that is no JSON.
pub open spec fn event_of(doc: Option<Nodes>) -> EventView {
    match doc {
        None => EventView::empty(),
        Some(d) => {
            let sc = member(d, "serverContent"@);
            if json::root(sc) is Null {
                EventView {
                    closed: !(json::root(member(d, "goAway"@)) is Null) || !(json::root(
                        member(d, "error"@),
                    ) is Null),
                    ..EventView::empty()
                }
            } else {
                EventView {
                    interim: said(
                        json::as_text(member(member(sc, "interimInputTranscription"@), "text"@)),
                    ),
                    finalized: said(
                        json::as_text(member(member(sc, "inputTranscription"@), "text"@)),
                    ),
                    closed: json::as_truth(member(sc, "generationComplete"@)) == Some(true),
                }
            }
        },
    }
}

/// The event of a raw server text. Unknown shapes give the empty event, and a
/// server that says farewell or reports an error ends the session.
pub fn parse_server_text(raw: &str) -> (r: TranscriptEvent)
    ensures
        r@ == event_of(json::document(raw@)),
{
    let v = match json::parse(raw) {
        Ok(v) => v,
        Err(_) => return TranscriptEvent::default(),
    };
    let sc = json::under(&v, "serverContent");
    if sc.is_null() {
        if !json::under(&v, "goAway").is_null() || !json::under(&v, "error").is_null() {
            return closed_event();
        }
        return TranscriptEvent::default();
    }
    let interim = json::under(json::under(sc, "interimInputTranscription"), "text").as_str();
    let finalized = json::under(json::under(sc, "inputTranscription"), "text").as_str();
    let complete = json::under(sc, "generationComplete").as_bool();
    content_event(interim, finalized, complete)
}

/// A text that is no JSON, and a document with neither server content, nor a
/// notice of going away, nor an error, such as the server's answer to the setup,
/// give the empty event.
pub proof fn law_unknown_shapes_are_empty(doc: Option<Nodes>)
    requires
        doc matches Some(d) ==> {
            &&& !d.contains_key(seq!["serverContent"@])
            &&& !d.contains_key(seq!["goAway"@])
            &&& !d.contains_key(seq!["error"@])
        },
    ensures
        event_of(doc) == EventView::empty(),
{
}

/// A server that is about to go away, or reports an error, ends the session
/// without a text.
pub proof fn law_farewells_and_errors_close(d: Nodes)
    requires
        json::root(member(d, "serverContent"@)) is Null,
        !(json::root(member(d, "goAway"@)) is Null) || !(json::root(member(d, "error"@)) is Null),
    ensures
        event_of(Some(d)) == EventView::over(),
{
}

/// An event never carries an empty text.
pub proof fn law_event_texts_say_something(doc: Option<Nodes>)
    ensures
        event_of(doc).interim matches Some(t) ==> t.len() > 0,
        event_of(doc).finalized matches Some(t) ==> t.len() > 0,
{
}

// ---------------------------------------------------------------------------
// Frames
// ---------------------------------------------------------------------------
/// Kinds of I/O error that matter here.
#[derive(Debug, Clone, Copy, PartialEq, Eq, Structural)]
pub enum IoKind {
    WouldBlock,
    TimedOut,
    ConnectionReset,
    Other,
}

/// What went wrong with a socket.
#[derive(Debug, Clone, Copy, PartialEq, Eq, Structural)]
pub enum WsError {
    Io(IoKind),
    /// The close handshake is done.
    ConnectionClosed,
    /// The socket was used after that.
    AlreadyClosed,
    Other,
}

/// What a read from the socket came back with.
#[derive(Debug)]
pub enum ReadOutcome {
    Text(String),
    Binary(Vec<u8>),
    /// A close frame: its code and reason, where it has them.
    Close(Option<(String, String)>),
    /// A ping, a pong or a raw frame.
    Control,
    /// No frame: what went wrong, and how it reads.
    Failed(WsError, String),
}

/// True for read timeouts: the caller keeps streaming.
pub fn is_timeout_err(e: &WsError) -> (r: bool)
    ensures
        r == (*e == WsError::Io(IoKind::WouldBlock) || *e == WsError::Io(IoKind::TimedOut)),
{
    match e {
        WsError::Io(IoKind::WouldBlock) => true,
        WsError::Io(IoKind::TimedOut) => true,
        _ => false,
    }
}

/// True when the socket is gone for good.
pub fn is_closed_err(e: &WsError) -> (r: bool)
    ensures
        r == (*e == WsError::ConnectionClosed || *e == WsError::AlreadyClosed),
{
    match e {
        WsError::ConnectionClosed => true,
        WsError::AlreadyClosed => true,
        _ => false,
    }
}

/// The text of bytes that need not be UTF-8.
pub uninterp spec fn lossy_text(bytes: Seq<u8>) -> Seq<char>;

/// `String::from_utf8_lossy`: valid UTF-8 is decoded as it is. What stands for
/// invalid sequences is left to the name `lossy_text`.
#[verifier::external_body]
fn from_utf8_lossy(bytes: &Vec<u8>) -> (r: String)
    ensures
        r@ == lossy_text(bytes@),
        vstd::utf8::valid_utf8(bytes@) ==> r@ == vstd::utf8::decode_utf8(bytes@),
{
    String::from_utf8_lossy(bytes).into_owned()
}

/// A read as one line of text, for the check right after the setup, while a
/// refusal is still loud. `None` is a timeout.
pub open spec fn raw_reply_of(read: ReadOutcome) -> Option<Seq<char>> {
    match read {
        ReadOutcome::Text(t) => Some(t@),
        ReadOutcome::Binary(b) => Some(lossy_text(b@)),
        ReadOutcome::Close(Some(frame)) => Some(
            "<CLOSE code="@ + frame.0@ + " reason="@ + frame.1@ + ">"@,
        ),
        ReadOutcome::Close(None) => Some("<CLOSE no frame>"@),
        ReadOutcome::Control => Some(Seq::empty()),
        ReadOutcome::Failed(e, message) => if e == WsError::Io(IoKind::WouldBlock) || e
            == WsError::Io(IoKind::TimedOut) {
            None
        } else {
            Some("<read error: "@ + message@ + ">"@)
        },
    }
}

/// A read as one line of text; `None` is a timeout.
pub fn raw_reply(read: ReadOutcome) -> (r: Option<String>)
    ensures
        opt_view(r) == raw_reply_of(read),
{
    match read {
        ReadOutcome::Text(t) => Some(t),
        ReadOutcome::Binary(b) => Some(from_utf8_lossy(&b)),
        ReadOutcome::Close(frame) => match frame {
            Some((code, reason)) => {
                let mut s = "<CLOSE code=".to_string();
                s.append(code.as_str());
                s.append(" reason=");
                s.append(reason.as_str());
                s.append(">");
                Some(s)
            },
            None => Some("<CLOSE no frame>".to_string()),
        },
        ReadOutcome::Control => Some(String::new()),
        ReadOutcome::Failed(e, message) => if is_timeout_err(&e) {
            None
        } else {
            let mut s = "<read error: ".to_string();
            s.append(message.as_str());
            s.append(">");
            Some(s)
        },
    }
}

/// A read as an event: a close, or a socket that is gone, ends the session;
/// any other failure is no event, and the caller keeps streaming.
pub open spec fn event_reply_of(read: ReadOutcome) -> Option<EventView> {
    match read {
        ReadOutcome::Text(t) => Some(event_of(json::document(t@))),
        ReadOutcome::Binary(b) => Some(event_of(json::document(lossy_text(b@)))),
        ReadOutcome::Close(_) => Some(EventView::over()),
        ReadOutcome::Control => Some(EventView::empty()),
        ReadOutcome::Failed(e, _) => if e == WsError::ConnectionClosed || e
            == WsError::AlreadyClosed {
            Some(EventView::over())
        } else {
            None
        },
    }
}

/// A read as an event; `None` where there is none.
pub fn event_reply(read: ReadOutcome) -> (r: Option<TranscriptEvent>)
    ensures
        match r {
            Some(ev) => event_reply_of(read) == Some(ev@),
            None => event_reply_of(read) is None,
        },
{
    match read {
        ReadOutcome::Text(t) => Some(parse_server_text(t.as_str())),
        ReadOutcome::Binary(b) => {
            let t = from_utf8_lossy(&b);
            Some(parse_server_text(t.as_str()))
        },
        ReadOutcome::Close(_) => Some(closed_event()),
        ReadOutcome::Control => Some(TranscriptEvent::default()),
        ReadOutcome::Failed(e, _) => if is_closed_err(&e) {
            Some(closed_event())
        } else {
            None
        },
    }
}

/// A timeout never ends a session, and a closed socket is never a timeout: the
/// check after the setup is silent exactly on timeouts, and on those the
/// stream goes on.
pub proof fn law_timeout_is_not_a_close(read: ReadOutcome)
    ensures
        raw_reply_of(read) is None ==> event_reply_of(read) is None,
        event_reply_of(read) == Some(EventView::over()) ==> raw_reply_of(read) is Some,
{
}

// ---------------------------------------------------------------------------
// What the messages and frames promise
// ---------------------------------------------------------------------------
/// Each text of an event comes from its own place in the document, and from
/// nowhere else: the final text is the one under `serverContent`,
/// `inputTranscription`, `text`, the preview the one under `serverContent`,
/// `interimInputTranscription`, `text`, each where it is there and not empty.
/// A preview is never taken for a final text, nor the other way round.
pub proof fn law_event_texts_come_from_their_places(d: Nodes, t: Seq<char>)
    ensures
        ({
            let content = seq!["serverContent"@];
            let spoken = d.contains_key(content) && !(d[content] is Null);
            let part = seq!["serverContent"@, "inputTranscription"@];
            let text = seq!["serverContent"@, "inputTranscription"@, "text"@];
            event_of(Some(d)).finalized == Some(t) <==> {
                &&& spoken
                &&& d.contains_key(part)
                &&& d.contains_key(text)
                &&& d[text] == json::Node::Text(t)
                &&& t.len() > 0
            }
        }),
        ({
            let content = seq!["serverContent"@];
            let spoken = d.contains_key(content) && !(d[content] is Null);
            let part = seq!["serverContent"@, "interimInputTranscription"@];
            let text = seq!["serverContent"@, "interimInputTranscription"@, "text"@];
            event_of(Some(d)).interim == Some(t) <==> {
                &&& spoken
                &&& d.contains_key(part)
                &&& d.contains_key(text)
                &&& d[text] == json::Node::Text(t)
                &&& t.len() > 0
            }
        }),
{
    lemma_one_key(d, "serverContent"@);
    lemma_three_keys(d, "serverContent"@, "inputTranscription"@, "text"@);
    lemma_three_keys(d, "serverContent"@, "interimInputTranscription"@, "text"@);
}

/// A document ends the session exactly where its server content says that
/// generation is complete, or where it has no server content and says farewell
/// or reports an error.
pub proof fn law_event_closes_where_the_server_says_so(d: Nodes)
    ensures
        ({
            let content = seq!["serverContent"@];
            let complete = seq!["serverContent"@, "generationComplete"@];
            let farewell = seq!["goAway"@];
            let error = seq!["error"@];
            event_of(Some(d)).closed <==> if d.contains_key(content) && !(d[content] is Null) {
                d.contains_key(complete) && d[complete] == json::Node::Bool(true)
            } else {
                ||| d.contains_key(farewell) && !(d[farewell] is Null)
                ||| d.contains_key(error) && !(d[error] is Null)
            }
        }),
        !event_of(None).closed && event_of(None).interim is None && event_of(None).finalized
            is None,
{
    lemma_one_key(d, "serverContent"@);
    lemma_one_key(d, "goAway"@);
    lemma_one_key(d, "error"@);
    lemma_two_keys(d, "serverContent"@, "generationComplete"@);
}

proof fn lemma_one_key(d: Nodes, a: Seq<char>)
    ensures
        json::root(member(d, a)) == (if d.contains_key(seq![a]) {
            d[seq![a]]
        } else {
            json::Node::Null
        }),
{
    assert(seq![a] + Seq::<Seq<char>>::empty() =~= seq![a]);
}

proof fn lemma_two_keys(d: Nodes, a: Seq<char>, b: Seq<char>)
    ensures
        json::root(member(member(d, a), b)) == (if d.contains_key(seq![a]) && d.contains_key(
            seq![a, b],
        ) {
            d[seq![a, b]]
        } else {
            json::Node::Null
        }),
{
    lemma_one_key(member(d, a), b);
    assert(seq![a] + seq![b] =~= seq![a, b]);
    assert(seq![b] != Seq::<Seq<char>>::empty()) by {
        assert(seq![b].len() == 1);
    }
}

proof fn lemma_three_keys(d: Nodes, a: Seq<char>, b: Seq<char>, c: Seq<char>)
    ensures
        json::root(member(member(member(d, a), b), c)) == (if d.contains_key(seq![a])
            && d.contains_key(seq![a, b]) && d.contains_key(seq![a, b, c]) {
            d[seq![a, b, c]]
        } else {
            json::Node::Null
        }),
{
    lemma_two_keys(member(d, a), b, c);
    assert(seq![a] + seq![b] =~= seq![a, b]);
    assert(seq![a] + seq![b, c] =~= seq![a, b, c]);
    assert(seq![b].len() == 1 && seq![b, c].len() == 2);
    let none = Seq::<Seq<char>>::empty();
    assert(seq![b] != none && seq![b, c] != none);
}

/// A user asks for verbatim mode by that word, whatever its case and spacing,
/// and by nothing else; anything else asks for smart mode.
pub proof fn law_only_its_name_asks_for_verbatim(want: Seq<char>)
    ensures
        mode_for(want) == "verbatim"@ <==> text::lowered(text::squeezed(want)) == "verbatim"@,
        mode_for(want) == "verbatim"@ || mode_for(want) == "smart"@,
        "verbatim"@ != "smart"@,
{
    lemma_wire_modes();
}

/// The setup asks for the mode that was chosen: it ends with VERBATIM exactly
/// where the canonical mode is verbatim, and with SMART otherwise.
pub proof fn law_setup_asks_for_the_mode(codes: Seq<Seq<char>>, mode: Seq<char>)
    ensures
        mode_for(mode) == "verbatim"@ <==> ",\"mode\":\"VERBATIM\"}}}"@.is_suffix_of(
            setup_message(codes, mode),
        ),
        mode_for(mode) == "smart"@ <==> ",\"mode\":\"SMART\"}}}"@.is_suffix_of(
            setup_message(codes, mode),
        ),
{
    lemma_wire_modes();
    reveal_strlit(",\"mode\":\"");
    reveal_strlit("VERBATIM");
    reveal_strlit("SMART");
    reveal_strlit("\"}}}");
    reveal_strlit(",\"mode\":\"VERBATIM\"}}}");
    reveal_strlit(",\"mode\":\"SMART\"}}}");
    let verbatim = ",\"mode\":\"VERBATIM\"}}}"@;
    let smart = ",\"mode\":\"SMART\"}}}"@;
    assert(verbatim =~= ",\"mode\":\""@ + "VERBATIM"@ + "\"}}}"@);
    assert(smart =~= ",\"mode\":\""@ + "SMART"@ + "\"}}}"@);
    let msg = setup_message(codes, mode);
    let head = setup_head() + json::string_array(codes);
    if mode_for(mode) == "verbatim"@ {
        assert(msg =~= head + verbatim);
        assert(msg.subrange(msg.len() - verbatim.len(), msg.len() as int) =~= verbatim);
        assert(msg[msg.len() - 5] == 'M' && smart[smart.len() - 5] == 'T');
    } else {
        assert(msg =~= head + smart);
        assert(msg.subrange(msg.len() - smart.len(), msg.len() as int) =~= smart);
        assert(msg[msg.len() - 5] == 'T' && verbatim[verbatim.len() - 5] == 'M');
    }
}

/// Read as JSON, the setup names the model, asks for text alone, lists exactly
/// the language codes, in order, and names the mode.
pub proof fn law_setup_says_what_was_chosen(codes: Seq<Seq<char>>, mode: Seq<char>)
    ensures
        ({
            let read = json::read(setup_message(codes, mode));
            let setup = (read->0).0->Object_0[0];
            let model = setup.1->Object_0[0];
            let generation = setup.1->Object_0[1];
            let how = setup.1->Object_0[2];
            let listed = how.1->Object_0[0];
            let chosen = how.1->Object_0[1];
            &&& read is Some
            &&& setup.0 == "setup"@
            &&& model.0 == "model"@
            &&& model.1 == Tree::Text("models/gemini-3.5-transcribe-live"@)
            &&& generation.0 == "generationConfig"@
            &&& generation.1->Object_0[0].0 == "responseModalities"@
            &&& generation.1->Object_0[0].1->List_0.len() == 1
            &&& generation.1->Object_0[0].1->List_0[0] == Tree::Text("TEXT"@)
            &&& how.0 == "inputAudioTranscription"@
            &&& listed.0 == "languageCodes"@
            &&& listed.1 is List
            &&& listed.1->List_0.len() == codes.len()
            &&& forall|i: int|
                0 <= i < codes.len() ==> #[trigger] listed.1->List_0[i] == Tree::Text(codes[i])
            &&& chosen.0 == "mode"@
            &&& mode_for(mode) == "verbatim"@ ==> chosen.1 == Tree::Text("VERBATIM"@)
            &&& mode_for(mode) != "verbatim"@ ==> chosen.1 == Tree::Text("SMART"@)
        }),
{
    law_setup_is_read_back(codes, mode);
    reveal_strlit("models/gemini-3.5-transcribe-live");
    reveal_strlit("models/");
    reveal_strlit("gemini-3.5-transcribe-live");
    assert("models/gemini-3.5-transcribe-live"@ =~= "models/"@ + MODEL@);
    let tree = setup_tree(codes, mode);
    assert(tree->Object_0[0].1->Object_0[2].1 == transcription_tree(codes, mode));
}

/// Audio goes out as 16-bit samples, the low byte of each first: two bytes for
/// each sample, which spell it.
pub proof fn law_samples_go_out_little_end_first(pcm: Seq<i16>, i: int)
    requires
        0 <= i < pcm.len(),
    ensures
        pcm_bytes(pcm).len() == 2 * pcm.len(),
        ({
            let spelled = pcm_bytes(pcm)[2 * i] + 256 * pcm_bytes(pcm)[2 * i + 1];
            &&& pcm[i] >= 0 ==> spelled == pcm[i]
            &&& pcm[i] < 0 ==> spelled == pcm[i] + 0x1_0000
        }),
{
    let s: i16 = pcm[i];
    lemma_sample(s);
    assert(pcm_bytes(pcm)[2 * i] == (sample_bits(s) % 256) as u8);
    assert(pcm_bytes(pcm)[2 * i + 1] == (sample_bits(s) / 256) as u8);
}

/// The audio message is the base64 text of the samples between two fixed texts.
pub proof fn law_audio_message_frames_its_data(pcm: Seq<i16>)
    ensures
        audio_message(pcm) == "{\"realtimeInput\":{\"audio\":{\"data\":\""@ + base64_text(
            pcm_bytes(pcm),
        ) + "\",\"mimeType\":\"audio/pcm;rate=16000\"}}}"@,
{
    reveal_strlit("\",\"mimeType\":\"audio/pcm;rate=16000\"}}}");
    reveal_strlit("\",\"mimeType\":\"");
    reveal_strlit("audio/pcm;rate=16000");
    reveal_strlit("\"}}}");
    assert("\",\"mimeType\":\"audio/pcm;rate=16000\"}}}"@ =~= "\",\"mimeType\":\""@ + PCM_MIME@
        + "\"}}}"@);
    assert(audio_message(pcm) =~= "{\"realtimeInput\":{\"audio\":{\"data\":\""@ + base64_text(
        pcm_bytes(pcm),
    ) + "\",\"mimeType\":\"audio/pcm;rate=16000\"}}}"@);
}

/// A text frame is handed on unchanged, and a binary one as its text; only a
/// timeout gives no line, and a close or a failure is told with all that is
/// known of it.
pub proof fn law_raw_replies_keep_what_came(
    t: String,
    b: Vec<u8>,
    frame: (String, String),
    e: WsError,
)
    ensures
        raw_reply_of(ReadOutcome::Text(t)) == Some(t@),
        raw_reply_of(ReadOutcome::Binary(b)) == Some(lossy_text(b@)),
        raw_reply_of(ReadOutcome::Close(Some(frame))) == Some(
            "<CLOSE code="@ + frame.0@ + " reason="@ + frame.1@ + ">"@,
        ),
        raw_reply_of(ReadOutcome::Close(None)) == Some("<CLOSE no frame>"@),
        raw_reply_of(ReadOutcome::Control) == Some(Seq::<char>::empty()),
        text::contains(raw_reply_of(ReadOutcome::Close(Some(frame)))->0, frame.0@),
        text::contains(raw_reply_of(ReadOutcome::Close(Some(frame)))->0, frame.1@),
        raw_reply_of(ReadOutcome::Failed(e, t)) is None <==> e == WsError::Io(IoKind::WouldBlock)
            || e == WsError::Io(IoKind::TimedOut),
        raw_reply_of(ReadOutcome::Failed(e, t)) matches Some(line) ==> text::contains(line, t@)
            && line == "<read error: "@ + t@ + ">"@,
{
    let line = raw_reply_of(ReadOutcome::Close(Some(frame)))->0;
    let a = "<CLOSE code="@;
    let r = " reason="@;
    let z = ">"@;
    text::law_contains(a, frame.0@, r + frame.1@ + z, line);
    assert(line =~= a + frame.0@ + (r + frame.1@ + z));
    text::law_contains(a + frame.0@ + r, frame.1@, z, line);
    text::law_contains("<read error: "@, t@, z, line);
}

/// Every read that brings a frame is an event: a text or binary frame the event
/// of its document, a close frame and a socket that is gone the end of the
/// session, and any other frame an event without content. No other failure is
/// an event.
pub proof fn law_reads_become_events(t: String, b: Vec<u8>, f: Option<(String, String)>, e: WsError)
    ensures
        event_reply_of(ReadOutcome::Text(t)) == Some(event_of(json::document(t@))),
        event_reply_of(ReadOutcome::Binary(b)) == Some(event_of(json::document(lossy_text(b@)))),
        event_reply_of(ReadOutcome::Close(f)) matches Some(ev) && ev.closed && ev.interim is None
            && ev.finalized is None,
        event_reply_of(ReadOutcome::Control) matches Some(ev) && !ev.closed && ev.interim is None
            && ev.finalized is None,
        event_reply_of(ReadOutcome::Failed(e, t)) is Some <==> e == WsError::ConnectionClosed || e
            == WsError::AlreadyClosed,
        event_reply_of(ReadOutcome::Failed(e, t)) matches Some(ev) ==> ev.closed && ev.interim
            is None && ev.finalized is None,
{
}

/// An event says what its fields hold, each as it is.
pub proof fn law_event_says_what_it_holds(ev: TranscriptEvent)
    ensures
        ev@.closed == ev.closed,
        ev@.interim is Some <==> ev.interim is Some,
        ev.interim matches Some(t) ==> ev@.interim == Some(t@),
        ev@.finalized is Some <==> ev.finalized is Some,
        ev.finalized matches Some(t) ==> ev@.finalized == Some(t@),
{
}

/// Nothing to report is neither a text nor an end, and the end of a session is
/// an end without a text.
pub proof fn law_events_without_a_text()
    ensures
        EventView::empty().interim is None && EventView::empty().finalized is None,
        !EventView::empty().closed,
        EventView::over().interim is None && EventView::over().finalized is None,
        EventView::over().closed,
{
}

/// A text that is there says something exactly where it is not empty, and then
/// it says itself.
pub proof fn law_what_says_something(t: Seq<char>, s: String, b: &str)
    ensures
        t.len() > 0 ==> said(Some(t)) == Some(t),
        t.len() == 0 ==> said(Some(t)) is None,
        said(None) is None,
        opt_view(Some(s)) == Some(s@),
        opt_view(None) is None,
        opt_str_view(Some(b)) == Some(b@),
        opt_str_view(None) is None,
{
}

/// The setup is the fixed text up to the language codes, these as an array, and
/// the mode.
pub proof fn law_setup_frames_its_settings(codes: Seq<Seq<char>>, mode: Seq<char>)
    ensures
        setup_message(codes, mode)
            == "{\"setup\":{\"model\":\"models/gemini-3.5-transcribe-live\",\"generationConfig\":{\"responseModalities\":[\"TEXT\"]},\"inputAudioTranscription\":{\"languageCodes\":"@
            + json::string_array(codes) + (if mode_for(mode) == "verbatim"@ {
            ",\"mode\":\"VERBATIM\"}}}"@
        } else {
            ",\"mode\":\"SMART\"}}}"@
        }),
{
    lemma_wire_modes();
    reveal_strlit("{\"setup\":{\"model\":\"models/");
    reveal_strlit("gemini-3.5-transcribe-live");
    reveal_strlit(
        "\",\"generationConfig\":{\"responseModalities\":[\"TEXT\"]},\"inputAudioTranscription\":{\"languageCodes\":",
    );
    reveal_strlit(
        "{\"setup\":{\"model\":\"models/gemini-3.5-transcribe-live\",\"generationConfig\":{\"responseModalities\":[\"TEXT\"]},\"inputAudioTranscription\":{\"languageCodes\":",
    );
    reveal_strlit(",\"mode\":\"");
    reveal_strlit("VERBATIM");
    reveal_strlit("SMART");
    reveal_strlit("\"}}}");
    reveal_strlit(",\"mode\":\"VERBATIM\"}}}");
    reveal_strlit(",\"mode\":\"SMART\"}}}");
    assert(setup_head()
        =~= "{\"setup\":{\"model\":\"models/gemini-3.5-transcribe-live\",\"generationConfig\":{\"responseModalities\":[\"TEXT\"]},\"inputAudioTranscription\":{\"languageCodes\":"@);
    assert(",\"mode\":\"VERBATIM\"}}}"@ =~= ",\"mode\":\""@ + "VERBATIM"@ + "\"}}}"@);
    assert(",\"mode\":\"SMART\"}}}"@ =~= ",\"mode\":\""@ + "SMART"@ + "\"}}}"@);
}

} // verus!
