//! The decisions of the local language-model layer.
//!
//! The request to the model is made by the caller; this module builds the prompt and turns
//! the model's answer (or its absence) into the layer's result.
use vstd::prelude::*;
use crate::text::{
    digit_value, digits_value, lemma_decimal_reads_back, lemma_digits_read_back, one_decimal,
    push_one_decimal, replace_all, replace_all_str,
};
use crate::tile::{copy_string, relabelled, Layer, LayerResult, ResolutionLayer, SensorReading, Tile, TileType};

verus! {

/// Layer 2: inference by a local Ollama model.
///
/// A reading is described to the model through a prompt template; an answer resolves the
/// tile as a prediction, a failed request escalates it.
pub struct OllamaLayer {
    pub endpoint: String,
    pub model: String,
    pub prompt_template: String,
    /// Confidence threshold in percent.
    pub confidence_threshold: u8,
}

/// The prompt for reading `r`: the template with its placeholders `{sensor_id}`, `{value}`,
/// `{unit}`, `{normal_min}` and `{normal_max}` filled in, in that order.
pub open spec fn prompt_text(template: Seq<char>, r: SensorReading) -> Seq<char> {
    let a = replace_all(template, "{sensor_id}"@, r.sensor_id@);
    let b = replace_all(a, "{value}"@, one_decimal(r.value as int));
    let c = replace_all(b, "{unit}"@, r.unit@);
    let d = replace_all(c, "{normal_min}"@, one_decimal(r.normal_min as int));
    replace_all(d, "{normal_max}"@, one_decimal(r.normal_max as int))
}

/// The text of a tile the model answered for: `"[OLLAMA] Analyzed <sensor>=<value><unit>"`.
pub open spec fn analysis_note(r: SensorReading) -> Seq<char> {
    "[OLLAMA] Analyzed "@ + r.sensor_id@ + "="@ + one_decimal(r.value as int) + r.unit@
}

/// Replacing a pattern whose first character occurs nowhere in `s` leaves `s` as it is.
proof fn lemma_replace_absent(s: Seq<char>, pat: Seq<char>, rep: Seq<char>)
    requires
        pat.len() > 0,
        forall|i: int| 0 <= i < s.len() ==> s[i] != pat[0],
    ensures
        replace_all(s, pat, rep) == s,
    decreases s.len(),
{
    if s.len() >= pat.len() {
        assert(s.subrange(0, pat.len() as int)[0] == s[0]);
        let tail = s.subrange(1, s.len() as int);
        lemma_replace_absent(tail, pat, rep);
        assert(seq![s[0]] + tail =~= s);
    }
}

/// The text `one_decimal(v)` holds no `{`: it is made of a sign, digits, `.` and `0`.
proof fn lemma_one_decimal_no_brace(v: int)
    ensures
        forall|i: int| 0 <= i < one_decimal(v).len() ==> one_decimal(v)[i] != '{',
{
    let n: nat = if v < 0 { (-v) as nat } else { v as nat };
    lemma_digits_read_back(n);
    let t = one_decimal(v);
    assert forall|i: int| 0 <= i < t.len() implies t[i] != '{' by {
        let ds = crate::text::digits(n);
        if v < 0 {
            if 1 <= i < 1 + ds.len() {
                assert(t[i] == ds[i - 1]);
                assert(0 <= digit_value(ds[i - 1]) <= 9);
            }
        } else {
            if i < ds.len() {
                assert(t[i] == ds[i]);
                assert(0 <= digit_value(ds[i]) <= 9);
            }
        }
    }
}

/// The prompt of the template `"{value}"` is the reading's value shown with one decimal:
/// a `-` comes first exactly when the value is negative, the digits before `.0` read back
/// as the value's magnitude.
pub proof fn lemma_value_prompt(r: SensorReading)
    ensures
        prompt_text("{value}"@, r) == one_decimal(r.value as int),
        ({
            let p = prompt_text("{value}"@, r);
            &&& p.len() >= 3
            &&& p[p.len() - 2] == '.'
            &&& p[p.len() - 1] == '0'
            &&& (p[0] == '-' <==> r.value < 0)
            &&& r.value < 0 ==> digits_value(p.subrange(1, p.len() - 2)) == -r.value
            &&& r.value >= 0 ==> digits_value(p.subrange(0, p.len() - 2)) == r.value
        }),
{
    reveal_strlit("{sensor_id}");
    reveal_strlit("{value}");
    reveal_strlit("{unit}");
    reveal_strlit("{normal_min}");
    reveal_strlit("{normal_max}");
    let v = one_decimal(r.value as int);
    let a = replace_all("{value}"@, "{sensor_id}"@, r.sensor_id@);
    assert(a == "{value}"@);
    let b = replace_all(a, "{value}"@, v);
    assert("{value}"@.subrange(0, 7) =~= "{value}"@);
    assert("{value}"@.subrange(7, 7) =~= Seq::<char>::empty());
    assert(replace_all(Seq::<char>::empty(), "{value}"@, v) == Seq::<char>::empty());
    assert(b == v + replace_all(Seq::<char>::empty(), "{value}"@, v));
    assert(b =~= v);
    lemma_one_decimal_no_brace(r.value as int);
    lemma_replace_absent(v, "{unit}"@, r.unit@);
    lemma_replace_absent(v, "{normal_min}"@, one_decimal(r.normal_min as int));
    lemma_replace_absent(v, "{normal_max}"@, one_decimal(r.normal_max as int));
    lemma_decimal_reads_back(r.value as int);
    let p = prompt_text("{value}"@, r);
    let d = crate::text::decimal(r.value as int);
    assert(p == d + seq!['.', '0']);
    if r.value < 0 {
        assert(p.subrange(1, p.len() - 2) =~= d.drop_first());
    } else {
        assert(p.subrange(0, p.len() - 2) =~= d);
    }
}

fn one_decimal_string(v: i64) -> (s: String)
    ensures
        s@ == one_decimal(v as int),
{
    let mut s = String::new();
    push_one_decimal(&mut s, v);
    assert(s@ =~= one_decimal(v as int));
    s
}

impl OllamaLayer {
    pub fn new(endpoint: &str, model: &str, prompt_template: &str) -> (l: OllamaLayer)
        ensures
            l.endpoint@ == endpoint@,
            l.model@ == model@,
            l.prompt_template@ == prompt_template@,
            l.confidence_threshold == 70,
    {
        OllamaLayer {
            endpoint: String::from_str(endpoint),
            model: String::from_str(model),
            prompt_template: String::from_str(prompt_template),
            confidence_threshold: 70,
        }
    }

    /// Human-readable name for this layer.
    pub fn name(&self) -> (n: &'static str)
        ensures
            n@ == "ollama"@,
    {
        "ollama"
    }

    /// The prompt that describes `reading` to the model.
    pub fn build_prompt(&self, reading: &SensorReading) -> (p: String)
        ensures
            p@ == prompt_text(self.prompt_template@, *reading),
    {
        let value = one_decimal_string(reading.value);
        let min = one_decimal_string(reading.normal_min);
        let max = one_decimal_string(reading.normal_max);
        proof {
            reveal_strlit("{sensor_id}");
            reveal_strlit("{value}");
            reveal_strlit("{unit}");
            reveal_strlit("{normal_min}");
            reveal_strlit("{normal_max}");
        }
        let a = replace_all_str(self.prompt_template.as_str(), "{sensor_id}", reading.sensor_id.as_str());
        let b = replace_all_str(a.as_str(), "{value}", value.as_str());
        let c = replace_all_str(b.as_str(), "{unit}", reading.unit.as_str());
        let d = replace_all_str(c.as_str(), "{normal_min}", min.as_str());
        replace_all_str(d.as_str(), "{normal_max}", max.as_str())
    }

    /// The prompt for `tile`, or `None` for a tile without a reading (which escalates
    /// without asking the model).
    pub fn prompt_for(&self, tile: &Tile) -> (p: Option<String>)
        ensures
            match tile.sensor_reading {
                None => p is None,
                Some(r) => p matches Some(s) && s@ == prompt_text(self.prompt_template@, r),
            },
    {
        match &tile.sensor_reading {
            None => None,
            Some(r) => Some(self.build_prompt(r)),
        }
    }

    /// The layer's result once the model was asked: an answer resolves the tile as a
    /// prediction at 80% confidence; no answer, or no reading, escalates it unchanged.
    pub fn resolve_with(&self, tile: Tile, answer: Option<String>) -> (res: LayerResult)
        ensures
            match (tile.sensor_reading, answer) {
                (Some(r), Some(_)) => res matches LayerResult::Resolved(out) && relabelled(
                    tile,
                    out,
                    TileType::Prediction,
                    analysis_note(r),
                    80,
                    ResolutionLayer::Ollama,
                ),
                _ => res == LayerResult::Escalate(tile),
            },
    {
        let note = match (&tile.sensor_reading, &answer) {
            (Some(r), Some(_)) => {
                let mut note = String::from_str("[OLLAMA] Analyzed ");
                note.append(r.sensor_id.as_str());
                note.append("=");
                push_one_decimal(&mut note, r.value);
                note.append(r.unit.as_str());
                assert(note@ =~= analysis_note(*r));
                note
            },
            _ => {
                return LayerResult::Escalate(tile);
            },
        };
        let mut tile = tile;
        tile.tile_type = TileType::Prediction;
        tile.confidence = 80;
        tile.resolved_by = ResolutionLayer::Ollama;
        tile.content = note;
        LayerResult::Resolved(tile)
    }
}

/// What the model layer answers for `tile` given the model's `answer`: a prediction at 80%
/// confidence when the tile has a reading and the model answered, else the tile escalates
/// unchanged.
pub open spec fn model_answer(tile: Tile, answer: Option<String>, res: LayerResult) -> bool {
    match (tile.sensor_reading, answer) {
        (Some(r), Some(_)) => res matches LayerResult::Resolved(out) && relabelled(
            tile,
            out,
            TileType::Prediction,
            analysis_note(r),
            80,
            ResolutionLayer::Ollama,
        ),
        _ => res == LayerResult::Escalate(tile),
    }
}

/// The language model as a layer of a chain: it holds the model's answer for the tile it is
/// about to process (`None` when the request failed or was not made).
pub struct ModelLayer {
    pub model: OllamaLayer,
    pub answer: Option<String>,
}

impl ModelLayer {
    pub fn new(model: OllamaLayer) -> (l: ModelLayer)
        ensures
            l.model == model,
            l.answer is None,
    {
        ModelLayer { model, answer: None }
    }
}

impl Layer for ModelLayer {
    open spec fn wf(&self) -> bool {
        true
    }

    open spec fn spec_name(&self) -> Seq<char> {
        "ollama"@
    }

    open spec fn step(&self, tile: Tile, post: Self, res: LayerResult) -> bool {
        &&& post == *self
        &&& model_answer(tile, self.answer, res)
    }

    fn name(&self) -> (n: &'static str) {
        self.model.name()
    }

    fn process(&mut self, tile: Tile) -> (res: LayerResult) {
        let answer = match &self.answer {
            Some(a) => Some(copy_string(a)),
            None => None,
        };
        self.model.resolve_with(tile, answer)
    }
}

} // verus!
