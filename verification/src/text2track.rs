//! From text statistics to a melody: the dominant character class of a text
//! picks one of four fixed tracks.

use crate::pure_tone::ToneAndDuration;
use crate::text_analyzer::TextAnalyzer;
use crate::text_analyzer::count_alphabets_spec;
use crate::text_analyzer::count_hiragana_spec;
use crate::text_analyzer::count_kanji_spec;
use crate::text_analyzer::count_katakana_spec;
use vstd::prelude::*;

verus! {

#[derive(Clone, Copy, Debug, PartialEq, Eq, Structural)]
pub enum TrackType {
    Hiragana,
    Katakana,
    Kanji,
    Alphabets,
}

/// The class with the greatest count wins; a tie goes to the later entry in
/// the order hiragana, katakana, kanji, alphabets. Every class's ratio shares
/// the text's length as denominator, so comparing counts compares the ratios.
pub open spec fn spec_track_type(h: nat, kt: nat, kj: nat, al: nat) -> TrackType {
    if h > kt && h > kj && h > al {
        TrackType::Hiragana
    } else if kt > kj && kt > al {
        TrackType::Katakana
    } else if kj > al {
        TrackType::Kanji
    } else {
        TrackType::Alphabets
    }
}

/// The track type a text selects through its character-class counts.
pub open spec fn spec_track_type_of(text: Seq<char>) -> TrackType {
    spec_track_type(
        count_hiragana_spec(text),
        count_katakana_spec(text),
        count_kanji_spec(text),
        count_alphabets_spec(text),
    )
}

/// Shorthand for a tone event in the melody tables.
pub open spec fn tone(frequency_centihz: u32, duration_ticks: u32) -> ToneAndDuration {
    ToneAndDuration { frequency_centihz, duration_ticks }
}

fn tone_event(frequency_centihz: u32, duration_ticks: u32) -> (r: ToneAndDuration)
    ensures
        r == tone(frequency_centihz, duration_ticks),
{
    ToneAndDuration { frequency_centihz, duration_ticks }
}

/// The hiragana melody.
pub open spec fn spec_track_hiragana() -> Seq<ToneAndDuration> {
    seq![
        tone(26163, 12),
        tone(29366, 12),
        tone(34923, 18),
        tone(39200, 6),
        tone(34923, 12),
        tone(29366, 12),
        tone(26163, 24),
        tone(39200, 12),
        tone(34923, 12),
        tone(29366, 18),
        tone(26163, 6),
        tone(29366, 12),
        tone(34923, 12),
        tone(39200, 24),
        tone(52325, 12),
        tone(39200, 12),
        tone(34923, 18),
        tone(29366, 6),
        tone(26163, 24),
        tone(29366, 24),
        tone(34923, 12),
        tone(39200, 12),
        tone(34923, 18),
        tone(29366, 6),
        tone(26163, 12),
        tone(29366, 12),
        tone(26163, 24),
    ]
}

/// The katakana melody.
pub open spec fn spec_track_katakana() -> Seq<ToneAndDuration> {
    seq![
        tone(39200, 8),
        tone(44000, 4),
        tone(49388, 12),
        tone(52325, 8),
        tone(49388, 4),
        tone(44000, 12),
        tone(39200, 4),
        tone(44000, 4),
        tone(49388, 4),
        tone(52325, 12),
        tone(49388, 18),
        tone(44000, 6),
        tone(52325, 4),
        tone(58733, 4),
        tone(65926, 4),
        tone(58733, 12),
        tone(52325, 8),
        tone(49388, 4),
        tone(44000, 12),
        tone(39200, 4),
        tone(44000, 4),
        tone(49388, 4),
        tone(52325, 12),
        tone(49388, 24),
        tone(65926, 8),
        tone(58733, 4),
        tone(52325, 12),
        tone(49388, 4),
        tone(52325, 4),
        tone(49388, 4),
        tone(44000, 12),
        tone(52325, 4),
        tone(58733, 4),
        tone(65926, 4),
        tone(58733, 12),
        tone(52325, 18),
        tone(49388, 6),
        tone(65926, 4),
        tone(58733, 4),
        tone(52325, 4),
        tone(49388, 12),
        tone(44000, 8),
        tone(49388, 4),
        tone(52325, 12),
        tone(49388, 4),
        tone(44000, 4),
        tone(39200, 4),
        tone(44000, 12),
        tone(39200, 24),
    ]
}

/// The kanji melody.
pub open spec fn spec_track_kanji() -> Seq<ToneAndDuration> {
    seq![
        tone(39200, 18),
        tone(44000, 6),
        tone(52325, 12),
        tone(58733, 12),
        tone(52325, 6),
        tone(44000, 6),
        tone(39200, 12),
        tone(32963, 18),
        tone(39200, 6),
        tone(52325, 12),
        tone(58733, 6),
        tone(52325, 6),
        tone(44000, 24),
        tone(58733, 6),
        tone(65926, 6),
        tone(58733, 6),
        tone(52325, 6),
        tone(44000, 18),
        tone(39200, 6),
        tone(78399, 12),
        tone(65926, 12),
        tone(58733, 18),
        tone(52325, 6),
        tone(65926, 12),
        tone(58733, 6),
        tone(52325, 6),
        tone(44000, 24),
        tone(52325, 6),
        tone(58733, 6),
        tone(65926, 12),
        tone(58733, 12),
        tone(52325, 12),
        tone(44000, 12),
        tone(39200, 12),
        tone(39200, 24),
    ]
}

/// The alphabets melody.
pub open spec fn spec_track_alphabets() -> Seq<ToneAndDuration> {
    seq![
        tone(49388, 9),
        tone(52325, 3),
        tone(58733, 6),
        tone(52325, 6),
        tone(46616, 6),
        tone(49388, 6),
        tone(44000, 12),
        tone(39200, 6),
        tone(41530, 3),
        tone(44000, 3),
        tone(46616, 6),
        tone(49388, 6),
        tone(52325, 18),
        tone(49388, 6),
        tone(58733, 6),
        tone(65926, 6),
        tone(58733, 6),
        tone(52325, 6),
        tone(49388, 9),
        tone(52325, 9),
        tone(49388, 6),
        tone(44000, 6),
        tone(46616, 6),
        tone(49388, 6),
        tone(52325, 6),
        tone(58733, 24),
        tone(69846, 6),
        tone(65926, 6),
        tone(62225, 6),
        tone(58733, 6),
        tone(52325, 6),
        tone(58733, 6),
        tone(65926, 6),
        tone(69846, 6),
        tone(78399, 9),
        tone(73999, 3),
        tone(69846, 6),
        tone(65926, 6),
        tone(62225, 12),
        tone(58733, 12),
        tone(52325, 6),
        tone(49388, 6),
        tone(46616, 6),
        tone(44000, 6),
        tone(39200, 9),
        tone(44000, 9),
        tone(46616, 6),
        tone(49388, 6),
        tone(52325, 6),
        tone(58733, 12),
        tone(52325, 18),
        tone(49388, 6),
    ]
}

/// The melody each track type stands for.
pub open spec fn spec_track_for(t: TrackType) -> Seq<ToneAndDuration> {
    match t {
        TrackType::Hiragana => spec_track_hiragana(),
        TrackType::Katakana => spec_track_katakana(),
        TrackType::Kanji => spec_track_kanji(),
        TrackType::Alphabets => spec_track_alphabets(),
    }
}

pub struct Text2Track {
    pub text_analyzer: TextAnalyzer,
}

impl Text2Track {
    pub fn new(text_analyzer: TextAnalyzer) -> (r: Self)
        ensures
            r.text_analyzer.text@ == text_analyzer.text@,
    {
        Self { text_analyzer }
    }

    /// Which melody the text selects: its dominant character class.
    pub fn determine_track_type(&self) -> (r: TrackType)
        ensures
            r == spec_track_type_of(self.text_analyzer.text@),
    {
        let h = self.text_analyzer.count_hiragana();
        let kt = self.text_analyzer.count_katakana();
        let kj = self.text_analyzer.count_kanji();
        let al = self.text_analyzer.count_alphabets();
        if h > kt && h > kj && h > al {
            TrackType::Hiragana
        } else if kt > kj && kt > al {
            TrackType::Katakana
        } else if kj > al {
            TrackType::Kanji
        } else {
            TrackType::Alphabets
        }
    }

    /// The melody for the text: the fixed track of its dominant class.
    pub fn generate_track(&self) -> (r: Vec<ToneAndDuration>)
        ensures
            r@ == spec_track_for(spec_track_type_of(self.text_analyzer.text@)),
    {
        match self.determine_track_type() {
            TrackType::Hiragana => self.generate_track_hiragana(),
            TrackType::Katakana => self.generate_track_katakana(),
            TrackType::Kanji => self.generate_track_kanji(),
            TrackType::Alphabets => self.generate_track_alphabets(),
        }
    }

    fn generate_track_hiragana(&self) -> (r: Vec<ToneAndDuration>)
        ensures
            r@ == spec_track_hiragana(),
    {
        let mut v: Vec<ToneAndDuration> = Vec::new();
        v.push(tone_event(26163, 12));
        v.push(tone_event(29366, 12));
        v.push(tone_event(34923, 18));
        v.push(tone_event(39200, 6));
        v.push(tone_event(34923, 12));
        v.push(tone_event(29366, 12));
        v.push(tone_event(26163, 24));
        v.push(tone_event(39200, 12));
        v.push(tone_event(34923, 12));
        v.push(tone_event(29366, 18));
        v.push(tone_event(26163, 6));
        v.push(tone_event(29366, 12));
        v.push(tone_event(34923, 12));
        v.push(tone_event(39200, 24));
        v.push(tone_event(52325, 12));
        v.push(tone_event(39200, 12));
        v.push(tone_event(34923, 18));
        v.push(tone_event(29366, 6));
        v.push(tone_event(26163, 24));
        v.push(tone_event(29366, 24));
        v.push(tone_event(34923, 12));
        v.push(tone_event(39200, 12));
        v.push(tone_event(34923, 18));
        v.push(tone_event(29366, 6));
        v.push(tone_event(26163, 12));
        v.push(tone_event(29366, 12));
        v.push(tone_event(26163, 24));
        proof {
            assert(v@ =~= spec_track_hiragana());
        }
        v
    }

    fn generate_track_katakana(&self) -> (r: Vec<ToneAndDuration>)
        ensures
            r@ == spec_track_katakana(),
    {
        let mut v: Vec<ToneAndDuration> = Vec::new();
        v.push(tone_event(39200, 8));
        v.push(tone_event(44000, 4));
        v.push(tone_event(49388, 12));
        v.push(tone_event(52325, 8));
        v.push(tone_event(49388, 4));
        v.push(tone_event(44000, 12));
        v.push(tone_event(39200, 4));
        v.push(tone_event(44000, 4));
        v.push(tone_event(49388, 4));
        v.push(tone_event(52325, 12));
        v.push(tone_event(49388, 18));
        v.push(tone_event(44000, 6));
        v.push(tone_event(52325, 4));
        v.push(tone_event(58733, 4));
        v.push(tone_event(65926, 4));
        v.push(tone_event(58733, 12));
        v.push(tone_event(52325, 8));
        v.push(tone_event(49388, 4));
        v.push(tone_event(44000, 12));
        v.push(tone_event(39200, 4));
        v.push(tone_event(44000, 4));
        v.push(tone_event(49388, 4));
        v.push(tone_event(52325, 12));
        v.push(tone_event(49388, 24));
        v.push(tone_event(65926, 8));
        v.push(tone_event(58733, 4));
        v.push(tone_event(52325, 12));
        v.push(tone_event(49388, 4));
        v.push(tone_event(52325, 4));
        v.push(tone_event(49388, 4));
        v.push(tone_event(44000, 12));
        v.push(tone_event(52325, 4));
        v.push(tone_event(58733, 4));
        v.push(tone_event(65926, 4));
        v.push(tone_event(58733, 12));
        v.push(tone_event(52325, 18));
        v.push(tone_event(49388, 6));
        v.push(tone_event(65926, 4));
        v.push(tone_event(58733, 4));
        v.push(tone_event(52325, 4));
        v.push(tone_event(49388, 12));
        v.push(tone_event(44000, 8));
        v.push(tone_event(49388, 4));
        v.push(tone_event(52325, 12));
        v.push(tone_event(49388, 4));
        v.push(tone_event(44000, 4));
        v.push(tone_event(39200, 4));
        v.push(tone_event(44000, 12));
        v.push(tone_event(39200, 24));
        proof {
            assert(v@ =~= spec_track_katakana());
        }
        v
    }

    fn generate_track_kanji(&self) -> (r: Vec<ToneAndDuration>)
        ensures
            r@ == spec_track_kanji(),
    {
        let mut v: Vec<ToneAndDuration> = Vec::new();
        v.push(tone_event(39200, 18));
        v.push(tone_event(44000, 6));
        v.push(tone_event(52325, 12));
        v.push(tone_event(58733, 12));
        v.push(tone_event(52325, 6));
        v.push(tone_event(44000, 6));
        v.push(tone_event(39200, 12));
        v.push(tone_event(32963, 18));
        v.push(tone_event(39200, 6));
        v.push(tone_event(52325, 12));
        v.push(tone_event(58733, 6));
        v.push(tone_event(52325, 6));
        v.push(tone_event(44000, 24));
        v.push(tone_event(58733, 6));
        v.push(tone_event(65926, 6));
        v.push(tone_event(58733, 6));
        v.push(tone_event(52325, 6));
        v.push(tone_event(44000, 18));
        v.push(tone_event(39200, 6));
        v.push(tone_event(78399, 12));
        v.push(tone_event(65926, 12));
        v.push(tone_event(58733, 18));
        v.push(tone_event(52325, 6));
        v.push(tone_event(65926, 12));
        v.push(tone_event(58733, 6));
        v.push(tone_event(52325, 6));
        v.push(tone_event(44000, 24));
        v.push(tone_event(52325, 6));
        v.push(tone_event(58733, 6));
        v.push(tone_event(65926, 12));
        v.push(tone_event(58733, 12));
        v.push(tone_event(52325, 12));
        v.push(tone_event(44000, 12));
        v.push(tone_event(39200, 12));
        v.push(tone_event(39200, 24));
        proof {
            assert(v@ =~= spec_track_kanji());
        }
        v
    }

    fn generate_track_alphabets(&self) -> (r: Vec<ToneAndDuration>)
        ensures
            r@ == spec_track_alphabets(),
    {
        let mut v: Vec<ToneAndDuration> = Vec::new();
        v.push(tone_event(49388, 9));
        v.push(tone_event(52325, 3));
        v.push(tone_event(58733, 6));
        v.push(tone_event(52325, 6));
        v.push(tone_event(46616, 6));
        v.push(tone_event(49388, 6));
        v.push(tone_event(44000, 12));
        v.push(tone_event(39200, 6));
        v.push(tone_event(41530, 3));
        v.push(tone_event(44000, 3));
        v.push(tone_event(46616, 6));
        v.push(tone_event(49388, 6));
        v.push(tone_event(52325, 18));
        v.push(tone_event(49388, 6));
        v.push(tone_event(58733, 6));
        v.push(tone_event(65926, 6));
        v.push(tone_event(58733, 6));
        v.push(tone_event(52325, 6));
        v.push(tone_event(49388, 9));
        v.push(tone_event(52325, 9));
        v.push(tone_event(49388, 6));
        v.push(tone_event(44000, 6));
        v.push(tone_event(46616, 6));
        v.push(tone_event(49388, 6));
        v.push(tone_event(52325, 6));
        v.push(tone_event(58733, 24));
        v.push(tone_event(69846, 6));
        v.push(tone_event(65926, 6));
        v.push(tone_event(62225, 6));
        v.push(tone_event(58733, 6));
        v.push(tone_event(52325, 6));
        v.push(tone_event(58733, 6));
        v.push(tone_event(65926, 6));
        v.push(tone_event(69846, 6));
        v.push(tone_event(78399, 9));
        v.push(tone_event(73999, 3));
        v.push(tone_event(69846, 6));
        v.push(tone_event(65926, 6));
        v.push(tone_event(62225, 12));
        v.push(tone_event(58733, 12));
        v.push(tone_event(52325, 6));
        v.push(tone_event(49388, 6));
        v.push(tone_event(46616, 6));
        v.push(tone_event(44000, 6));
        v.push(tone_event(39200, 9));
        v.push(tone_event(44000, 9));
        v.push(tone_event(46616, 6));
        v.push(tone_event(49388, 6));
        v.push(tone_event(52325, 6));
        v.push(tone_event(58733, 12));
        v.push(tone_event(52325, 18));
        v.push(tone_event(49388, 6));
        proof {
            assert(v@ =~= spec_track_alphabets());
        }
        v
    }
}

} // verus!
