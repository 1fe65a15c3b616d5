//! Tile animations declared in tileset custom data, and frame stepping.
//!
//! The custom-data convention is `anim=1,2,3;fps=8` or
//! `frames=1@0.1,2@0.1,3@0.2;repeat=false`. Frame durations are decimal
//! seconds; they are kept here as the text that was written, and the engine
//! side turns them into timers.

use vstd::prelude::*;

use crate::keyed_map::LookupKey;
use crate::text::{
    all_digits, digits_value, find_first, is_digit, is_ws, occurs_at, occurs_ci_at, trim_end,
    trim_start, unsigned_part, contains, contains_ci, contains_ignore_ascii_case, contains_str, parse_i32, parse_i32_spec, split,
    split_once, split_once_str, split_str, str_eq, strip_prefix, strip_prefix_str, trim, trim_str,
    views,
};

verus! {

/// Identifies a tile within a tileset.
#[derive(Debug, Clone, Copy, PartialEq, Eq, Hash, Structural)]
pub struct LdtkTileKey {
    /// UID of the owning tileset; `None` for embedded tilesets.
    pub tileset_uid: Option<i32>,
    /// Index of the tile within the tileset.
    pub tile_id: i32,
}

impl View for LdtkTileKey {
    type V = LdtkTileKey;

    open spec fn view(&self) -> LdtkTileKey {
        *self
    }
}

impl LookupKey for LdtkTileKey {
    fn key_eq(&self, other: &Self) -> (b: bool) {
        let same_uid = match (self.tileset_uid, other.tileset_uid) {
            (Some(a), Some(b)) => a == b,
            (None, None) => true,
            _ => false,
        };
        same_uid && self.tile_id == other.tile_id
    }

    fn key_clone(&self) -> (c: Self) {
        *self
    }
}

/// An animation-wide timing setting, as written.
#[derive(Debug, PartialEq, Eq)]
pub enum LdtkFrameTiming {
    /// `fps=<value>`: each frame lasts `1 / max(value, 0.001)` seconds.
    FramesPerSecond(String),
    /// `duration=<value>`: each frame lasts `max(value, 0.001)` seconds.
    Seconds(String),
}

impl Clone for LdtkFrameTiming {
    fn clone(&self) -> (r: Self)
        ensures
            r == *self,
    {
        match self {
            LdtkFrameTiming::FramesPerSecond(t) => LdtkFrameTiming::FramesPerSecond(t.clone()),
            LdtkFrameTiming::Seconds(t) => LdtkFrameTiming::Seconds(t.clone()),
        }
    }
}

/// A single animation frame.
#[derive(Debug, PartialEq, Eq)]
pub struct LdtkTileAnimationFrame {
    /// Index of the tile to display for this frame.
    pub tile_id: i32,
    /// Seconds written for this frame after `@`, if any. When absent or not a
    /// number the animation's timing applies.
    pub seconds: Option<String>,
}

impl Clone for LdtkTileAnimationFrame {
    fn clone(&self) -> (r: Self)
        ensures
            r == *self,
    {
        LdtkTileAnimationFrame {
            tile_id: self.tile_id,
            seconds: match &self.seconds {
                Some(t) => Some(t.clone()),
                None => None,
            },
        }
    }
}

/// Frame sequence of an animated tile.
///
/// A frame lasts the seconds written on it when they read as a number;
/// otherwise the last timing setting that reads as a number decides, and
/// without one a frame lasts 0.1 s. No frame lasts less than 0.001 s.
#[derive(Debug)]
pub struct LdtkTileAnimation {
    /// Ordered frames.
    pub frames: Vec<LdtkTileAnimationFrame>,
    /// Timing settings in the order they were written.
    pub timing: Vec<LdtkFrameTiming>,
    /// When `true` the animation loops back to frame 0; otherwise it holds
    /// the last frame.
    pub repeat: bool,
}

/// Frame as plain values: tile id and the seconds text.
pub open spec fn frame_view(f: LdtkTileAnimationFrame) -> (i32, Option<Seq<char>>) {
    (
        f.tile_id,
        match f.seconds {
            Some(t) => Some(t@),
            None => None,
        },
    )
}

/// Timing setting as plain values: `true` for frames per second.
pub open spec fn timing_view(t: LdtkFrameTiming) -> (bool, Seq<char>) {
    match t {
        LdtkFrameTiming::FramesPerSecond(v) => (true, v@),
        LdtkFrameTiming::Seconds(v) => (false, v@),
    }
}

/// Plain view of an animation: frames, timing settings, repeat flag.
pub type AnimationView = (Seq<(i32, Option<Seq<char>>)>, Seq<(bool, Seq<char>)>, bool);

impl LdtkTileAnimation {
    pub open spec fn view_of(self) -> AnimationView {
        (
            self.frames@.map_values(|f: LdtkTileAnimationFrame| frame_view(f)),
            self.timing@.map_values(|t: LdtkFrameTiming| timing_view(t)),
            self.repeat,
        )
    }
}

impl Clone for LdtkTileAnimation {
    fn clone(&self) -> (r: Self)
        ensures
            r.frames@ == self.frames@,
            r.timing@ == self.timing@,
            r.repeat == self.repeat,
    {
        let mut frames: Vec<LdtkTileAnimationFrame> = Vec::new();
        let mut i: usize = 0;
        while i < self.frames.len()
            invariant
                i <= self.frames@.len(),
                frames@ == self.frames@.take(i as int),
            decreases self.frames@.len() - i,
        {
            frames.push(self.frames[i].clone());
            i = i + 1;
            proof {
                assert(frames@ =~= self.frames@.take(i as int));
            }
        }
        let mut timing: Vec<LdtkFrameTiming> = Vec::new();
        let mut j: usize = 0;
        while j < self.timing.len()
            invariant
                j <= self.timing@.len(),
                timing@ == self.timing@.take(j as int),
            decreases self.timing@.len() - j,
        {
            timing.push(self.timing[j].clone());
            j = j + 1;
            proof {
                assert(timing@ =~= self.timing@.take(j as int));
            }
        }
        proof {
            assert(frames@ =~= self.frames@);
            assert(timing@ =~= self.timing@);
        }
        LdtkTileAnimation { frames, timing, repeat: self.repeat }
    }
}

impl Default for LdtkTileAnimation {
    fn default() -> (a: Self)
        ensures
            a.frames@.len() == 0,
            a.timing@.len() == 0,
            !a.repeat,
    {
        LdtkTileAnimation { frames: Vec::new(), timing: Vec::new(), repeat: false }
    }
}

/// State while reading the `;`-separated parts: timing settings, repeat
/// flag, and the part that lists the frames.
pub type PartsState = (Seq<(bool, Seq<char>)>, bool, Seq<char>);

/// `value` is one of the words that switch repetition off.
pub open spec fn is_no_repeat(value: Seq<char>) -> bool {
    value == "false"@ || value == "0"@ || value == "no"@
}

/// Reads one `;`-separated part.
pub open spec fn read_part(st: PartsState, part: Seq<char>) -> PartsState {
    let t = trim(part);
    if strip_prefix(t, "fps="@) is Some {
        (st.0.push((true, trim(strip_prefix(t, "fps="@)->0))), st.1, st.2)
    } else if strip_prefix(t, "duration="@) is Some {
        (st.0.push((false, trim(strip_prefix(t, "duration="@)->0))), st.1, st.2)
    } else if strip_prefix(t, "repeat="@) is Some {
        (st.0, !is_no_repeat(trim(strip_prefix(t, "repeat="@)->0)), st.2)
    } else if contains(t, "anim"@) || contains(t, "frame"@) {
        (st.0, st.1, t)
    } else {
        st
    }
}

/// Reads the parts in order, starting from no timing, repeating, and the
/// whole text as the frame list.
pub open spec fn read_parts(parts: Seq<Seq<char>>, whole: Seq<char>) -> PartsState
    decreases parts.len(),
{
    if parts.len() == 0 {
        (Seq::empty(), true, whole)
    } else {
        read_part(read_parts(parts.drop_last(), whole), parts.last())
    }
}

/// The frame list without its `name=` or `name:` label.
pub open spec fn frame_list(frame_text: Seq<char>) -> Seq<char> {
    match split_once(frame_text, '=') {
        Some(p) => p.1,
        None => match split_once(frame_text, ':') {
            Some(p) => p.1,
            None => frame_text,
        },
    }
}

/// One `,`-separated frame entry: `tile` or `tile@seconds`.
pub open spec fn read_frame(entry: Seq<char>) -> Option<(i32, Option<Seq<char>>)> {
    let t = trim(entry);
    if t.len() == 0 {
        None
    } else {
        match split_once(t, '@') {
            Some(p) => match parse_i32_spec(trim(p.0)) {
                Some(id) => Some((id, Some(trim(p.1)))),
                None => None,
            },
            None => match parse_i32_spec(t) {
                Some(id) => Some((id, None)),
                None => None,
            },
        }
    }
}

/// The frames read from the entries, skipping entries that are not frames.
pub open spec fn read_frames(entries: Seq<Seq<char>>) -> Seq<(i32, Option<Seq<char>>)>
    decreases entries.len(),
{
    if entries.len() == 0 {
        Seq::empty()
    } else {
        let before = read_frames(entries.drop_last());
        match read_frame(entries.last()) {
            Some(f) => before.push(f),
            None => before,
        }
    }
}

/// The animation declared by tile custom data, if any: the data must mention
/// `anim` or `frame` (any ASCII case) and list at least one frame.
pub open spec fn spec_parse_tile_animation(data: Seq<char>) -> Option<AnimationView> {
    let normalized = trim(data);
    if normalized.len() == 0 {
        None
    } else if !(contains_ci(normalized, "anim"@) || contains_ci(normalized, "frame"@)) {
        None
    } else {
        let st = read_parts(split(normalized, ';'), normalized);
        let frames = read_frames(split(frame_list(st.2), ','));
        if frames.len() == 0 {
            None
        } else {
            Some((frames, st.0, st.1))
        }
    }
}

/// The decimal digits of `n`, most significant first, without leading
/// zeros.
pub open spec fn decimal_text(n: nat) -> Seq<char>
    decreases n,
{
    if n < 10 {
        seq![((n + 48) as u32) as char]
    } else {
        decimal_text(n / 10).push((((n % 10) + 48) as u32) as char)
    }
}

proof fn lemma_decimal_text(n: nat)
    ensures
        decimal_text(n).len() > 0,
        all_digits(decimal_text(n)),
        digits_value(decimal_text(n)) == n,
    decreases n,
{
    let d = decimal_text(n);
    if n < 10 {
        assert(d.drop_last() =~= Seq::<char>::empty());
        assert(digits_value(d.drop_last()) == 0);
        assert(d.last() as u32 == n + 48);
        assert(('0' as u32) == 48);
        assert(digits_value(d) == digits_value(d.drop_last()) * 10 + ((d.last() as u32) - ('0' as u32)));
        assert(is_digit(d[0]));
    } else {
        lemma_decimal_text(n / 10);
        assert(d.drop_last() =~= decimal_text(n / 10));
        assert(d.last() as u32 == (n % 10) + 48);
        assert(('0' as u32) == 48);
        assert(n == (n / 10) * 10 + n % 10);
        assert(digits_value(d.drop_last()) == n / 10);
        assert(digits_value(d) == digits_value(d.drop_last()) * 10 + ((d.last() as u32) - ('0' as u32)));
        assert forall|i: int| 0 <= i < d.len() implies is_digit(#[trigger] d[i]) by {
            if i < d.len() - 1 {
                assert(d[i] == decimal_text(n / 10)[i]);
            }
        }
    }
}

proof fn lemma_split_without(s: Seq<char>, c: char)
    requires
        forall|i: int| 0 <= i < s.len() ==> #[trigger] s[i] != c,
    ensures
        split(s, c) == seq![s],
    decreases s.len(),
{
    if s.len() > 0 {
        lemma_split_without(s.drop_last(), c);
        assert(s.last() == s[s.len() - 1]);
        assert(s[s.len() - 1] != c);
        assert(s.drop_last().push(s.last()) =~= s);
        assert(seq![s.drop_last()].update(0, s.drop_last().push(s.last())) =~= seq![s]);
    } else {
        assert(s =~= Seq::<char>::empty());
    }
}

proof fn lemma_find_first_absent(s: Seq<char>, c: char)
    requires
        forall|i: int| 0 <= i < s.len() ==> #[trigger] s[i] != c,
    ensures
        find_first(s, c) is None,
    decreases s.len(),
{
    if s.len() > 0 {
        assert(s[0] != c);
        assert forall|i: int| 0 <= i < s.drop_first().len() implies #[trigger] s.drop_first()[i]
            != c by {
            assert(s.drop_first()[i] == s[i + 1]);
        }
        lemma_find_first_absent(s.drop_first(), c);
    }
}

proof fn lemma_find_first_at(s: Seq<char>, c: char, k: int)
    requires
        0 <= k < s.len(),
        s[k] == c,
        forall|i: int| 0 <= i < k ==> #[trigger] s[i] != c,
    ensures
        find_first(s, c) == Some(k),
    decreases k,
{
    if k > 0 {
        assert(s[0] != c);
        assert forall|i: int| 0 <= i < k - 1 implies #[trigger] s.drop_first()[i] != c by {
            assert(s.drop_first()[i] == s[i + 1]);
        }
        assert(s.drop_first()[k - 1] == s[k]);
        lemma_find_first_at(s.drop_first(), c, k - 1);
    }
}

/// The decimal texts of `ids` joined by commas.
pub open spec fn id_list_text(ids: Seq<nat>) -> Seq<char>
    decreases ids.len(),
{
    if ids.len() == 0 {
        Seq::empty()
    } else if ids.len() == 1 {
        decimal_text(ids[0])
    } else {
        id_list_text(ids.drop_last()) + seq![','] + decimal_text(ids.last())
    }
}

proof fn lemma_split_append(a: Seq<char>, b: Seq<char>, c: char)
    requires
        forall|i: int| 0 <= i < b.len() ==> #[trigger] b[i] != c,
    ensures
        split(a + seq![c] + b, c) == split(a, c).push(b),
    decreases b.len(),
{
    let s = a + seq![c] + b;
    if b.len() == 0 {
        assert(s.drop_last() =~= a);
        assert(s.last() == c);
        assert(b =~= Seq::<char>::empty());
    } else {
        let b2 = b.drop_last();
        assert forall|i: int| 0 <= i < b2.len() implies #[trigger] b2[i] != c by {
            assert(b2[i] == b[i]);
        }
        lemma_split_append(a, b2, c);
        assert(s.drop_last() =~= a + seq![c] + b2);
        assert(s.last() == b[b.len() - 1]);
        let p = split(a, c).push(b2);
        assert(p.last() == b2);
        assert(b2.push(b.last()) =~= b);
        assert(b.last() == s.last());
        assert(p.update(p.len() - 1, p.last().push(s.last())) =~= split(a, c).push(b));
    }
}

proof fn lemma_id_list_text(ids: Seq<nat>)
    requires
        ids.len() > 0,
    ensures
        id_list_text(ids).len() > 0,
        is_digit(id_list_text(ids)[0]),
        is_digit(id_list_text(ids).last()),
        forall|i: int|
            0 <= i < id_list_text(ids).len() ==> is_digit(#[trigger] id_list_text(ids)[i])
                || id_list_text(ids)[i] == ',',
        split(id_list_text(ids), ',') == ids.map_values(|n: nat| decimal_text(n)),
    decreases ids.len(),
{
    let t = id_list_text(ids);
    if ids.len() == 1 {
        lemma_decimal_text(ids[0]);
        assert forall|i: int| 0 <= i < t.len() implies #[trigger] t[i] != ',' by {
            assert(is_digit(t[i]));
        }
        lemma_split_without(t, ',');
        assert(ids.map_values(|n: nat| decimal_text(n)) =~= seq![t]);
    } else {
        let prev = ids.drop_last();
        lemma_id_list_text(prev);
        let pt = id_list_text(prev);
        let d = decimal_text(ids.last());
        lemma_decimal_text(ids.last());
        assert(t == pt + seq![','] + d);
        assert(t[0] == pt[0]);
        assert(t.last() == d.last());
        assert(d.last() == d[d.len() - 1]);
        assert forall|i: int| 0 <= i < t.len() implies is_digit(#[trigger] t[i]) || t[i] == ',' by {
            if i < pt.len() {
                assert(t[i] == pt[i]);
            } else if i > pt.len() {
                assert(t[i] == d[i - pt.len() - 1]);
            }
        }
        assert forall|i: int| 0 <= i < d.len() implies #[trigger] d[i] != ',' by {
            assert(is_digit(d[i]));
        }
        lemma_split_append(pt, d, ',');
        assert(ids.map_values(|n: nat| decimal_text(n)) =~= prev.map_values(
            |n: nat| decimal_text(n),
        ).push(d));
    }
}

proof fn lemma_read_frame_decimal(n: nat)
    requires
        n <= i32::MAX,
    ensures
        read_frame(decimal_text(n)) == Some((n as i32, None::<Seq<char>>)),
{
    let d = decimal_text(n);
    lemma_decimal_text(n);
    assert forall|i: int| 0 <= i < d.len() implies #[trigger] d[i] != '@' && d[i] != '-' && d[i]
        != '+' && !is_ws(d[i]) by {
        assert(is_digit(d[i]));
    }
    assert(!is_ws(d[0]));
    assert(trim_start(d) == d);
    assert(!is_ws(d[d.len() - 1]));
    assert(trim_end(d) == d);
    assert(trim(d) == d);
    lemma_find_first_absent(d, '@');
    assert(unsigned_part(d) == d);
    assert(parse_i32_spec(d) == Some(n as i32));
}

proof fn lemma_read_frames_decimal(ids: Seq<nat>)
    requires
        forall|i: int| 0 <= i < ids.len() ==> #[trigger] ids[i] <= i32::MAX,
    ensures
        read_frames(ids.map_values(|n: nat| decimal_text(n))) == ids.map_values(
            |n: nat| (n as i32, None::<Seq<char>>),
        ),
    decreases ids.len(),
{
    let parts = ids.map_values(|n: nat| decimal_text(n));
    if ids.len() == 0 {
        assert(ids.map_values(|n: nat| (n as i32, None::<Seq<char>>)) =~= Seq::<
            (i32, Option<Seq<char>>),
        >::empty());
    } else {
        let prev = ids.drop_last();
        assert forall|i: int| 0 <= i < prev.len() implies #[trigger] prev[i] <= i32::MAX by {
            assert(prev[i] == ids[i]);
        }
        lemma_read_frames_decimal(prev);
        assert(parts.drop_last() =~= prev.map_values(|n: nat| decimal_text(n)));
        assert(ids.last() == ids[ids.len() - 1]);
        lemma_read_frame_decimal(ids.last());
        assert(parts.last() == decimal_text(ids.last()));
        assert(ids.map_values(|n: nat| (n as i32, None::<Seq<char>>)) =~= prev.map_values(
            |n: nat| (n as i32, None::<Seq<char>>),
        ).push((ids.last() as i32, None::<Seq<char>>)));
    }
}

/// Facts about the part `anim=` + the id list: it has no `;`, reads as the
/// part that lists the frames whatever came before, and its frames are the
/// ids in order.
proof fn lemma_anim_part(ids: Seq<nat>)
    requires
        ids.len() > 0,
        forall|i: int| 0 <= i < ids.len() ==> #[trigger] ids[i] <= i32::MAX,
    ensures
        ({
            let a = seq!['a', 'n', 'i', 'm', '='] + id_list_text(ids);
            &&& a.len() > 5
            &&& a[0] == 'a'
            &&& is_digit(a.last())
            &&& forall|i: int| 0 <= i < a.len() ==> #[trigger] a[i] != ';'
            &&& trim(a) == a
            &&& occurs_ci_at(a, "anim"@, 0)
            &&& forall|st: PartsState| #[trigger] read_part(st, a) == (st.0, st.1, a)
            &&& read_frames(split(frame_list(a), ',')) == ids.map_values(
                |n: nat| (n as i32, None::<Seq<char>>),
            )
        }),
{
    let d = id_list_text(ids);
    lemma_id_list_text(ids);
    let label = seq!['a', 'n', 'i', 'm', '='];
    let s = label + d;
    assert(s.len() == d.len() + 5);
    assert forall|i: int| 0 <= i < 5 implies #[trigger] s[i] == label[i] by {}
    assert forall|i: int| 5 <= i < s.len() implies #[trigger] s[i] == d[i - 5] by {}
    assert forall|i: int| 0 <= i < s.len() implies #[trigger] s[i] != ';' by {
        if i >= 5 {
            assert(s[i] == d[i - 5]);
            assert(is_digit(d[i - 5]) || d[i - 5] == ',');
        }
    }
    assert(!is_ws(s[0]));
    assert(trim_start(s) == s);
    assert(s.last() == d.last());
    assert(!is_ws(d.last()));
    assert(trim_end(s) == s);
    assert(trim(s) == s);
    reveal_strlit("anim");
    reveal_strlit("frame");
    reveal_strlit("fps=");
    reveal_strlit("duration=");
    reveal_strlit("repeat=");
    assert(occurs_ci_at(s, "anim"@, 0));
    assert(strip_prefix(s, "fps="@) is None) by {
        assert(s.take(4)[0] != "fps="@[0]);
    }
    assert(strip_prefix(s, "duration="@) is None) by {
        if 9 <= s.len() {
            assert(s.take(9)[0] != "duration="@[0]);
        }
    }
    assert(strip_prefix(s, "repeat="@) is None) by {
        if 7 <= s.len() {
            assert(s.take(7)[0] != "repeat="@[0]);
        }
    }
    assert(s.subrange(0, 4) =~= "anim"@);
    assert(occurs_at(s, "anim"@, 0));
    assert(contains(s, "anim"@));
    assert forall|st: PartsState| #[trigger] read_part(st, s) == (st.0, st.1, s) by {}
    lemma_find_first_at(s, '=', 4);
    assert(s.skip(5) =~= d);
    assert(frame_list(s) == d);
    lemma_read_frames_decimal(ids);
}

/// A frame list of tile ids reads as those ids, in order: for every
/// non-empty list `ids` of tile ids from 0 to `i32::MAX`, the custom data
/// `anim=` followed by the decimal digits of the ids joined by commas
/// declares one frame per id, showing that tile, with no per-frame seconds,
/// no timing setting, repeating.
pub proof fn lemma_frame_list_animation(ids: Seq<nat>)
    requires
        ids.len() > 0,
        forall|i: int| 0 <= i < ids.len() ==> #[trigger] ids[i] <= i32::MAX,
    ensures
        spec_parse_tile_animation(seq!['a', 'n', 'i', 'm', '='] + id_list_text(ids)) == Some(
            (
                ids.map_values(|n: nat| (n as i32, None::<Seq<char>>)),
                Seq::<(bool, Seq<char>)>::empty(),
                true,
            ),
        ),
{
    let s = seq!['a', 'n', 'i', 'm', '='] + id_list_text(ids);
    lemma_anim_part(ids);
    assert(contains_ci(s, "anim"@));
    lemma_split_without(s, ';');
    assert(seq![s].drop_last() =~= Seq::<Seq<char>>::empty());
    assert(seq![s].last() == s);
    assert(read_parts(Seq::<Seq<char>>::empty(), s) == (
        Seq::<(bool, Seq<char>)>::empty(),
        true,
        s,
    ));
    assert(read_part((Seq::<(bool, Seq<char>)>::empty(), true, s), s) == (
        Seq::<(bool, Seq<char>)>::empty(),
        true,
        s,
    ));
    assert(read_parts(split(s, ';'), s) == (Seq::<(bool, Seq<char>)>::empty(), true, s));
    assert(ids.map_values(|n: nat| (n as i32, None::<Seq<char>>)).len() > 0);
}

/// Settings after the frame list apply: `;fps=` and a number records that
/// number as a frames-per-second setting, and `;repeat=false` turns
/// repetition off, while the frames stay the ids in order.
pub proof fn lemma_animation_settings(ids: Seq<nat>, fps: nat)
    requires
        ids.len() > 0,
        forall|i: int| 0 <= i < ids.len() ==> #[trigger] ids[i] <= i32::MAX,
    ensures
        spec_parse_tile_animation(
            seq!['a', 'n', 'i', 'm', '='] + id_list_text(ids) + seq![';', 'f', 'p', 's', '=']
                + decimal_text(fps),
        ) == Some(
            (
                ids.map_values(|n: nat| (n as i32, None::<Seq<char>>)),
                seq![(true, decimal_text(fps))],
                true,
            ),
        ),
        spec_parse_tile_animation(
            seq!['a', 'n', 'i', 'm', '='] + id_list_text(ids) + seq![
                ';',
                'r',
                'e',
                'p',
                'e',
                'a',
                't',
                '=',
                'f',
                'a',
                'l',
                's',
                'e',
            ],
        ) == Some(
            (ids.map_values(|n: nat| (n as i32, None::<Seq<char>>)), Seq::<(bool, Seq<char>)>::empty(), false),
        ),
{
    let a = seq!['a', 'n', 'i', 'm', '='] + id_list_text(ids);
    lemma_anim_part(ids);
    let frames = ids.map_values(|n: nat| (n as i32, None::<Seq<char>>));
    assert(frames.len() > 0);
    reveal_strlit("anim");
    reveal_strlit("fps=");
    reveal_strlit("duration=");
    reveal_strlit("repeat=");
    reveal_strlit("false");
    assert forall|i: int| 0 <= i < a.len() - 1 implies #[trigger] a.drop_last()[i] != ';' by {
        assert(a.drop_last()[i] == a[i]);
    }
    lemma_split_without(a, ';');
    assert(seq![a].drop_last() =~= Seq::<Seq<char>>::empty());
    assert(seq![a].last() == a);
    let st0 = (Seq::<(bool, Seq<char>)>::empty(), true, a);
    assert(read_parts(Seq::<Seq<char>>::empty(), a) == (
        Seq::<(bool, Seq<char>)>::empty(),
        true,
        a,
    ));
    // With `;fps=` and a number.
    let m = decimal_text(fps);
    lemma_decimal_text(fps);
    let b = seq!['f', 'p', 's', '='] + m;
    let s1 = a + seq![';'] + b;
    assert(s1 =~= a + seq![';', 'f', 'p', 's', '='] + m);
    assert forall|i: int| 0 <= i < m.len() implies #[trigger] m[i] != ';' && !is_ws(m[i]) by {
        assert(is_digit(m[i]));
    }
    assert forall|i: int| 0 <= i < b.len() implies #[trigger] b[i] != ';' by {
        if i >= 4 {
            assert(b[i] == m[i - 4]);
        }
    }
    lemma_split_append(a, b, ';');
    assert(split(s1, ';') =~= seq![a, b]);
    assert(s1.len() == a.len() + 1 + b.len());
    assert(s1[0] == a[0]);
    assert(!is_ws(s1[0]));
    assert(trim_start(s1) == s1);
    assert(s1.last() == m.last());
    assert(m.last() == m[m.len() - 1]);
    assert(trim_end(s1) == s1);
    assert(trim(s1) == s1);
    assert forall|j: int| 0 <= j < 4 implies #[trigger] s1[0 + j] == a[j] by {}
    assert(occurs_ci_at(s1, "anim"@, 0));
    assert(contains_ci(s1, "anim"@));
    assert(seq![a, b].drop_last() =~= seq![a]);
    assert(seq![a, b].last() == b);
    assert(read_parts(seq![a], s1) == read_part(read_parts(Seq::<Seq<char>>::empty(), s1), a));
    assert(read_parts(seq![a], s1) == st0);
    assert(!is_ws(b[0]));
    assert(trim_start(b) == b);
    assert(b.last() == m.last());
    assert(trim_end(b) == b);
    assert(trim(b) == b);
    assert(b.take(4) =~= "fps="@);
    assert(b.skip(4) =~= m);
    assert(trim_start(m) == m);
    assert(trim_end(m) == m);
    assert(trim(m) == m);
    assert(read_part(st0, b) == (seq![(true, m)], true, a));
    assert(read_parts(split(s1, ';'), s1) == (seq![(true, m)], true, a));
    // With `;repeat=false`.
    let w = seq!['f', 'a', 'l', 's', 'e'];
    let c = seq!['r', 'e', 'p', 'e', 'a', 't', '='] + w;
    let s2 = a + seq![';'] + c;
    assert(s2 =~= a + seq![';', 'r', 'e', 'p', 'e', 'a', 't', '=', 'f', 'a', 'l', 's', 'e']);
    assert forall|i: int| 0 <= i < c.len() implies #[trigger] c[i] != ';' by {}
    lemma_split_append(a, c, ';');
    assert(split(s2, ';') =~= seq![a, c]);
    assert(s2[0] == a[0]);
    assert(!is_ws(s2[0]));
    assert(trim_start(s2) == s2);
    assert(s2.last() == 'e');
    assert(trim_end(s2) == s2);
    assert(trim(s2) == s2);
    assert forall|j: int| 0 <= j < 4 implies #[trigger] s2[0 + j] == a[j] by {}
    assert(occurs_ci_at(s2, "anim"@, 0));
    assert(contains_ci(s2, "anim"@));
    assert(seq![a, c].drop_last() =~= seq![a]);
    assert(seq![a, c].last() == c);
    assert(read_parts(seq![a], s2) == read_part(read_parts(Seq::<Seq<char>>::empty(), s2), a));
    assert(read_parts(seq![a], s2) == st0);
    assert(trim_start(c) == c);
    assert(trim_end(c) == c);
    assert(trim(c) == c);
    assert(strip_prefix(c, "fps="@) is None) by {
        assert(c.take(4)[0] != "fps="@[0]);
    }
    assert(strip_prefix(c, "duration="@) is None) by {
        assert(c.take(9)[0] != "duration="@[0]);
    }
    assert(c.take(7) =~= "repeat="@);
    assert(c.skip(7) =~= w);
    assert(trim_start(w) == w);
    assert(trim_end(w) == w);
    assert(w =~= "false"@);
    assert(is_no_repeat(trim(c.skip(7))));
    assert(read_part(st0, c) == (Seq::<(bool, Seq<char>)>::empty(), false, a));
    assert(read_parts(split(s2, ';'), s2) == (Seq::<(bool, Seq<char>)>::empty(), false, a));
}

/// Seconds written after `@` stay with their frame: for every tile id `n`
/// and number `k`, the custom data `anim=` + `n` + `@` + `k` declares one
/// frame showing tile `n` for the written seconds `k`, repeating, with no
/// timing setting; and `anim=` + `n` + `;duration=` + `k` declares one frame
/// showing tile `n` and records `k` as a seconds-per-frame setting.
pub proof fn lemma_frame_seconds_and_duration(n: nat, k: nat)
    requires
        n <= i32::MAX,
    ensures
        spec_parse_tile_animation(
            seq!['a', 'n', 'i', 'm', '='] + decimal_text(n) + seq!['@'] + decimal_text(k),
        ) == Some(
            (
                seq![(n as i32, Some(decimal_text(k)))],
                Seq::<(bool, Seq<char>)>::empty(),
                true,
            ),
        ),
        spec_parse_tile_animation(
            seq!['a', 'n', 'i', 'm', '='] + decimal_text(n) + seq![
                ';',
                'd',
                'u',
                'r',
                'a',
                't',
                'i',
                'o',
                'n',
                '=',
            ] + decimal_text(k),
        ) == Some(
            (
                seq![(n as i32, None::<Seq<char>>)],
                seq![(false, decimal_text(k))],
                true,
            ),
        ),
{
    reveal_strlit("anim");
    reveal_strlit("fps=");
    reveal_strlit("duration=");
    reveal_strlit("repeat=");
    let d = decimal_text(n);
    let m = decimal_text(k);
    lemma_decimal_text(n);
    lemma_decimal_text(k);
    assert forall|i: int| 0 <= i < d.len() implies #[trigger] d[i] != ';' && d[i] != ','
        && d[i] != '@' && d[i] != '=' && d[i] != '-' && d[i] != '+' && !is_ws(d[i]) by {
        assert(is_digit(d[i]));
    }
    assert forall|i: int| 0 <= i < m.len() implies #[trigger] m[i] != ';' && m[i] != ','
        && m[i] != '@' && m[i] != '=' && !is_ws(m[i]) by {
        assert(is_digit(m[i]));
    }
    // `anim=n@k`: one part, one entry, split at the `@`.
    let e = d + seq!['@'] + m;
    let label = seq!['a', 'n', 'i', 'm', '='];
    let s1 = label + e;
    assert(s1 =~= label + d + seq!['@'] + m);
    assert forall|i: int| 0 <= i < e.len() implies #[trigger] e[i] != ';' && e[i] != ',' by {
        if i < d.len() {
            assert(e[i] == d[i]);
        } else if i > d.len() {
            assert(e[i] == m[i - d.len() - 1]);
        }
    }
    assert forall|i: int| 0 <= i < s1.len() implies #[trigger] s1[i] != ';' by {
        if i >= 5 {
            assert(s1[i] == e[i - 5]);
        }
    }
    assert(!is_ws(s1[0]));
    assert(trim_start(s1) == s1);
    assert(s1.last() == m[m.len() - 1]);
    assert(trim_end(s1) == s1);
    assert(trim(s1) == s1);
    assert(occurs_ci_at(s1, "anim"@, 0));
    assert(contains_ci(s1, "anim"@));
    lemma_split_without(s1, ';');
    assert(seq![s1].drop_last() =~= Seq::<Seq<char>>::empty());
    assert(seq![s1].last() == s1);
    assert(strip_prefix(s1, "fps="@) is None) by {
        assert(s1.take(4)[0] != "fps="@[0]);
    }
    assert(strip_prefix(s1, "duration="@) is None) by {
        if 9 <= s1.len() {
            assert(s1.take(9)[0] != "duration="@[0]);
        }
    }
    assert(strip_prefix(s1, "repeat="@) is None) by {
        if 7 <= s1.len() {
            assert(s1.take(7)[0] != "repeat="@[0]);
        }
    }
    assert(s1.subrange(0, 4) =~= "anim"@);
    assert(occurs_at(s1, "anim"@, 0));
    assert(contains(s1, "anim"@));
    assert(read_parts(Seq::<Seq<char>>::empty(), s1) == (
        Seq::<(bool, Seq<char>)>::empty(),
        true,
        s1,
    ));
    assert(read_parts(split(s1, ';'), s1) == (Seq::<(bool, Seq<char>)>::empty(), true, s1));
    lemma_find_first_at(s1, '=', 4);
    assert(s1.skip(5) =~= e);
    assert(frame_list(s1) == e);
    lemma_split_without(e, ',');
    assert(e[0] == d[0]);
    assert(trim_start(e) == e);
    assert(e.last() == m[m.len() - 1]);
    assert(trim_end(e) == e);
    assert(trim(e) == e);
    assert forall|i: int| 0 <= i < d.len() implies #[trigger] e[i] != '@' by {
        assert(e[i] == d[i]);
    }
    assert(e[d.len() as int] == '@');
    lemma_find_first_at(e, '@', d.len() as int);
    assert(e.take(d.len() as int) =~= d);
    assert(e.skip(d.len() as int + 1) =~= m);
    assert(trim_start(d) == d);
    assert(d.last() == d[d.len() - 1]);
    assert(trim_end(d) == d);
    assert(trim(d) == d);
    assert(trim_start(m) == m);
    assert(trim_end(m) == m);
    assert(trim(m) == m);
    assert(unsigned_part(d) == d);
    assert(parse_i32_spec(d) == Some(n as i32));
    assert(read_frame(e) == Some((n as i32, Some(m))));
    assert(seq![e].drop_last() =~= Seq::<Seq<char>>::empty());
    assert(seq![e].last() == e);
    assert(read_frames(Seq::<Seq<char>>::empty()) == Seq::<(i32, Option<Seq<char>>)>::empty());
    assert(read_frames(seq![e]) =~= seq![(n as i32, Some(m))]);
    // `anim=n;duration=k`: the frame part, then the setting.
    let ids = seq![n];
    assert(id_list_text(ids) == d);
    assert forall|i: int| 0 <= i < ids.len() implies #[trigger] ids[i] <= i32::MAX by {}
    lemma_anim_part(ids);
    assert(ids.map_values(|x: nat| (x as i32, None::<Seq<char>>)) =~= seq![
        (n as i32, None::<Seq<char>>),
    ]);
    let a = label + d;
    let b = seq!['d', 'u', 'r', 'a', 't', 'i', 'o', 'n', '='] + m;
    let s2 = a + seq![';'] + b;
    assert(s2 =~= label + d + seq![';', 'd', 'u', 'r', 'a', 't', 'i', 'o', 'n', '='] + m);
    assert forall|i: int| 0 <= i < b.len() implies #[trigger] b[i] != ';' by {
        if i >= 9 {
            assert(b[i] == m[i - 9]);
        }
    }
    lemma_split_append(a, b, ';');
    lemma_split_without(a, ';');
    assert(split(s2, ';') =~= seq![a, b]);
    assert(s2[0] == a[0]);
    assert(!is_ws(s2[0]));
    assert(trim_start(s2) == s2);
    assert(s2.last() == m[m.len() - 1]);
    assert(trim_end(s2) == s2);
    assert(trim(s2) == s2);
    assert forall|j: int| 0 <= j < 4 implies #[trigger] s2[0 + j] == a[j] by {}
    assert(occurs_ci_at(s2, "anim"@, 0));
    assert(contains_ci(s2, "anim"@));
    let st0 = (Seq::<(bool, Seq<char>)>::empty(), true, a);
    assert(seq![a].drop_last() =~= Seq::<Seq<char>>::empty());
    assert(seq![a].last() == a);
    assert(seq![a, b].drop_last() =~= seq![a]);
    assert(seq![a, b].last() == b);
    assert(read_parts(Seq::<Seq<char>>::empty(), s2) == (
        Seq::<(bool, Seq<char>)>::empty(),
        true,
        s2,
    ));
    assert(read_parts(seq![a], s2) == st0);
    assert(!is_ws(b[0]));
    assert(trim_start(b) == b);
    assert(b.last() == m[m.len() - 1]);
    assert(trim_end(b) == b);
    assert(trim(b) == b);
    assert(strip_prefix(b, "fps="@) is None) by {
        assert(b.take(4)[0] != "fps="@[0]);
    }
    assert(b.take(9) =~= "duration="@);
    assert(b.skip(9) =~= m);
    assert(read_part(st0, b) == (seq![(false, m)], true, a));
    assert(read_parts(split(s2, ';'), s2) == (seq![(false, m)], true, a));
}

/// Parses the tile-animation convention out of tileset custom data.
pub fn parse_tile_animation(data: &str) -> (r: Option<LdtkTileAnimation>)
    ensures
        match r {
            Some(a) => spec_parse_tile_animation(data@) == Some(a.view_of()),
            None => spec_parse_tile_animation(data@) is None,
        },
{
    let normalized = trim_str(data);
    if normalized.unicode_len() == 0 {
        return None;
    }
    let has_anim = contains_ignore_ascii_case(normalized.as_str(), "anim");
    let has_frame = contains_ignore_ascii_case(normalized.as_str(), "frame");
    proof {
        reveal_strlit("anim");
        reveal_strlit("frame");
    }
    if !has_anim && !has_frame {
        return None;
    }
    let parts = split_str(normalized.as_str(), ';');
    let mut timing: Vec<LdtkFrameTiming> = Vec::new();
    let mut repeat = true;
    let mut frame_text: String = normalized.clone();
    let mut i: usize = 0;
    proof {
        assert(views(parts@).take(0) =~= Seq::<Seq<char>>::empty());
        assert(timing@.map_values(|t: LdtkFrameTiming| timing_view(t)) =~= Seq::<
            (bool, Seq<char>),
        >::empty());
    }
    while i < parts.len()
        invariant
            i <= parts@.len(),
            views(parts@) == split(normalized@, ';'),
            read_parts(views(parts@).take(i as int), normalized@) == (
                timing@.map_values(|t: LdtkFrameTiming| timing_view(t)),
                repeat,
                frame_text@,
            ),
        decreases parts@.len() - i,
    {
        let ghost st = read_parts(views(parts@).take(i as int), normalized@);
        proof {
            assert(views(parts@).take(i + 1).drop_last() =~= views(parts@).take(i as int));
            assert(views(parts@).take(i + 1).last() == parts@[i as int]@);
        }
        let part = trim_str(parts[i].as_str());
        let fps = strip_prefix_str(part.as_str(), "fps=");
        let dur = strip_prefix_str(part.as_str(), "duration=");
        let rep = strip_prefix_str(part.as_str(), "repeat=");
        proof {
            reveal_strlit("fps=");
            reveal_strlit("duration=");
            reveal_strlit("repeat=");
        }
        let ghost before = timing@;
        if let Some(v) = fps {
            let text = trim_str(v.as_str());
            timing.push(LdtkFrameTiming::FramesPerSecond(text));
            proof {
                assert(timing@.map_values(|t: LdtkFrameTiming| timing_view(t)) =~= before.map_values(
                    |t: LdtkFrameTiming| timing_view(t),
                ).push((true, text@)));
            }
        } else if let Some(v) = dur {
            let text = trim_str(v.as_str());
            timing.push(LdtkFrameTiming::Seconds(text));
            proof {
                assert(timing@.map_values(|t: LdtkFrameTiming| timing_view(t)) =~= before.map_values(
                    |t: LdtkFrameTiming| timing_view(t),
                ).push((false, text@)));
            }
        } else if let Some(v) = rep {
            let value = trim_str(v.as_str());
            let no = str_eq(value.as_str(), "false") || str_eq(value.as_str(), "0") || str_eq(
                value.as_str(),
                "no",
            );
            proof {
                reveal_strlit("false");
                reveal_strlit("0");
                reveal_strlit("no");
            }
            repeat = !no;
        } else {
            let a = contains_str(part.as_str(), "anim");
            let f = contains_str(part.as_str(), "frame");
            if a || f {
                frame_text = part;
            }
        }
        i = i + 1;
    }
    proof {
        assert(views(parts@).take(parts@.len() as int) =~= views(parts@));
    }
    let labelled = match split_once_str(frame_text.as_str(), '=') {
        Some((_, value)) => value,
        None => match split_once_str(frame_text.as_str(), ':') {
            Some((_, value)) => value,
            None => frame_text.clone(),
        },
    };
    let entries = split_str(labelled.as_str(), ',');
    let mut frames: Vec<LdtkTileAnimationFrame> = Vec::new();
    let mut k: usize = 0;
    proof {
        assert(frames@.map_values(|f: LdtkTileAnimationFrame| frame_view(f)) =~= Seq::<
            (i32, Option<Seq<char>>),
        >::empty());
    }
    while k < entries.len()
        invariant
            k <= entries@.len(),
            views(entries@) == split(labelled@, ','),
            read_frames(views(entries@).take(k as int)) == frames@.map_values(
                |f: LdtkTileAnimationFrame| frame_view(f),
            ),
        decreases entries@.len() - k,
    {
        proof {
            assert(views(entries@).take(k + 1).drop_last() =~= views(entries@).take(k as int));
            assert(views(entries@).take(k + 1).last() == entries@[k as int]@);
        }
        let ghost before = frames@;
        let entry = trim_str(entries[k].as_str());
        if entry.unicode_len() > 0 {
            match split_once_str(entry.as_str(), '@') {
                Some((tile, seconds)) => {
                    let tile_text = trim_str(tile.as_str());
                    if let Some(id) = parse_i32(tile_text.as_str()) {
                        let secs = trim_str(seconds.as_str());
                        frames.push(LdtkTileAnimationFrame { tile_id: id, seconds: Some(secs) });
                    }
                },
                None => {
                    if let Some(id) = parse_i32(entry.as_str()) {
                        frames.push(LdtkTileAnimationFrame { tile_id: id, seconds: None });
                    }
                },
            }
        }
        proof {
            if frames@.len() > before.len() {
                assert(frames@.map_values(|f: LdtkTileAnimationFrame| frame_view(f)) =~= before.map_values(
                    |f: LdtkTileAnimationFrame| frame_view(f),
                ).push(frame_view(frames@.last())));
            } else {
                assert(frames@ == before);
            }
        }
        k = k + 1;
    }
    proof {
        assert(views(entries@).take(entries@.len() as int) =~= views(entries@));
    }
    if frames.len() == 0 {
        return None;
    }
    Some(LdtkTileAnimation { frames, timing, repeat })
}

/// Frame shown after one step from `index` over `len` frames.
pub open spec fn next_index(index: int, len: int, repeat: bool) -> int {
    if index + 1 >= len {
        if repeat {
            0
        } else {
            len - 1
        }
    } else {
        index + 1
    }
}

/// Steps `frame_index` when the frame timer has just finished. Returns the
/// tile id of the new frame when the frame changed this tick, otherwise
/// `None`: the timer is still running, there are no frames, or the step left
/// the index where it was (the last frame of an animation that does not
/// repeat, or a single repeating frame).
pub fn advance_frame(animation: &LdtkTileAnimation, frame_index: &mut usize, timer_finished: bool)
    -> (r: Option<i32>)
    requires
        timer_finished && animation.frames@.len() > 0 ==> *old(frame_index) < usize::MAX,
    ensures
        !timer_finished || animation.frames@.len() == 0 ==> r is None && *final(frame_index) == *old(
            frame_index,
        ),
        timer_finished && animation.frames@.len() > 0 ==> {
            &&& *final(frame_index) == next_index(
                *old(frame_index) as int,
                animation.frames@.len() as int,
                animation.repeat,
            )
            &&& *final(frame_index) < animation.frames@.len()
            &&& r == if *final(frame_index) != *old(frame_index) {
                Some(animation.frames@[*final(frame_index) as int].tile_id)
            } else {
                None
            }
        },
{
    if !timer_finished || animation.frames.len() == 0 {
        return None;
    }
    let previous = *frame_index;
    let mut next = previous + 1;
    if next >= animation.frames.len() {
        next = if animation.repeat {
            0
        } else {
            animation.frames.len() - 1
        };
    }
    *frame_index = next;
    if next != previous {
        Some(animation.frames[next].tile_id)
    } else {
        None
    }
}

/// Tile id of the frame at `frame_index`, when there is one.
pub fn current_tile_id(animation: &LdtkTileAnimation, frame_index: usize) -> (r: Option<i32>)
    ensures
        r == if frame_index < animation.frames@.len() {
            Some(animation.frames@[frame_index as int].tile_id)
        } else {
            None
        },
{
    if frame_index < animation.frames.len() {
        Some(animation.frames[frame_index].tile_id)
    } else {
        None
    }
}

/// Rotation in degrees that LDtk flip flags stand for: 180 when the
/// vertical flip bit (2) is set, otherwise 0.
pub fn tile_rotation_from_flags(flags: i32) -> (r: u16)
    ensures
        r == if (flags & 2) != 0 {
            180u16
        } else {
            0u16
        },
{
    let low = flags & 3;
    proof {
        assert((flags & 3) & 2 == flags & 2) by (bit_vector);
        assert(0 <= flags & 3 <= 3) by (bit_vector);
        assert((flags & 3 == 0 || flags & 3 == 1) <==> (flags & 2 == 0)) by (bit_vector);
    }
    if low == 0 || low == 1 {
        0
    } else {
        180
    }
}

} // verus!
