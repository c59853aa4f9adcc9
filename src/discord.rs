use vstd::prelude::*;
use vstd::string::StringExecFns;
use crate::covers::{cover_id, get_cover_url, image_url};
use crate::jellyfin::{ItemView, NowPlayingItem};

verus! {

/// The decimal digit `d`.
pub open spec fn digit_char(d: nat) -> char {
    if d == 0 { '0' } else if d == 1 { '1' } else if d == 2 { '2' } else if d == 3 { '3' }
    else if d == 4 { '4' } else if d == 5 { '5' } else if d == 6 { '6' } else if d == 7 { '7' }
    else if d == 8 { '8' } else { '9' }
}

/// The decimal digits of `n`, without leading zeros.
pub open spec fn decimal(n: nat) -> Seq<char>
    decreases n,
{
    if n < 10 {
        seq![digit_char(n)]
    } else {
        decimal(n / 10).push(digit_char(n % 10))
    }
}

/// `n` written in decimal, with a minus sign when negative.
pub open spec fn int_text(n: int) -> Seq<char> {
    if n < 0 {
        seq!['-'] + decimal((-n) as nat)
    } else {
        decimal(n as nat)
    }
}

/// `n` written in decimal at least two characters wide, padded with a zero.
pub open spec fn pad2_text(n: int) -> Seq<char> {
    if 0 <= n < 10 {
        seq!['0'] + decimal(n as nat)
    } else {
        int_text(n)
    }
}

/// The strings of `v` separated by ", ".
pub open spec fn join_text(v: Seq<Seq<char>>) -> Seq<char>
    decreases v.len(),
{
    if v.len() == 0 {
        Seq::empty()
    } else if v.len() == 1 {
        v[0]
    } else {
        join_text(v.drop_last()) + ", "@ + v.last()
    }
}

/// The second line shown for an item.
pub open spec fn state_text(it: ItemView) -> Seq<char> {
    match it.item_type {
        Some(t) => if t == "Audio"@ {
            match it.artists {
                Some(a) => join_text(a),
                None => Seq::empty(),
            }
        } else if t == "Movie"@ {
            match it.production_year {
                Some(y) => int_text(y as int),
                None => "Movie"@,
            }
        } else if t == "Episode"@ {
            if it.season_number is Some && it.episode_number is Some && it.series_name is Some {
                "S"@ + pad2_text(it.season_number->0 as int) + "E"@ + pad2_text(
                    it.episode_number->0 as int,
                ) + " \u{2013} "@ + it.series_name->0
            } else {
                match it.series_name {
                    Some(n) => n,
                    None => "TV Show"@,
                }
            }
        } else {
            Seq::empty()
        },
        None => Seq::empty(),
    }
}

/// The activity kind: 2 (listening) for audio, 3 (watching) otherwise.
pub open spec fn kind_code(it: ItemView) -> u8 {
    if it.item_type == Some("Audio"@) {
        2
    } else {
        3
    }
}

/// `x` limited to the range of `i64`.
pub open spec fn clamp_i64(x: int) -> i64 {
    if x > i64::MAX {
        i64::MAX
    } else if x < i64::MIN {
        i64::MIN
    } else {
        x as i64
    }
}

/// The elapsed seconds shown: no more than the runtime when that is known.
pub open spec fn shown_elapsed(elapsed: i64, runtime: i64) -> i64 {
    if runtime > 0 && runtime < elapsed {
        runtime
    } else {
        elapsed
    }
}

/// Everything a presence activity shows.
pub struct Activity {
    pub details: String,
    pub state: String,
    pub large_image: String,
    pub start: i64,
    pub end: i64,
    pub activity_type: u8,
}

fn append_digit(s: &mut String, d: u32)
    requires
        d < 10,
    ensures
        final(s)@ == old(s)@.push(digit_char(d as nat)),
{
    let t: &str = if d == 0 { "0" } else if d == 1 { "1" } else if d == 2 { "2" } else if d == 3 { "3" }
    else if d == 4 { "4" } else if d == 5 { "5" } else if d == 6 { "6" } else if d == 7 { "7" }
    else if d == 8 { "8" } else { "9" };
    proof {
        reveal_strlit("0");
        reveal_strlit("1");
        reveal_strlit("2");
        reveal_strlit("3");
        reveal_strlit("4");
        reveal_strlit("5");
        reveal_strlit("6");
        reveal_strlit("7");
        reveal_strlit("8");
        reveal_strlit("9");
    }
    assert(t@ =~= seq![digit_char(d as nat)]);
    s.append(t);
    assert(s@ =~= old(s)@.push(digit_char(d as nat)));
}

fn append_decimal(s: &mut String, n: u32)
    ensures
        final(s)@ == old(s)@ + decimal(n as nat),
    decreases n,
{
    if n >= 10 {
        append_decimal(s, n / 10);
    }
    append_digit(s, n % 10);
    assert(s@ =~= old(s)@ + decimal(n as nat));
}

fn append_int(s: &mut String, n: i32)
    ensures
        final(s)@ == old(s)@ + int_text(n as int),
{
    if n < 0 {
        s.append("-");
        proof {
            reveal_strlit("-");
        }
        let m: u32 = (-(n as i64)) as u32;
        append_decimal(s, m);
        assert(s@ =~= old(s)@ + int_text(n as int));
    } else {
        append_decimal(s, n as u32);
    }
}

fn append_pad2(s: &mut String, n: i32)
    ensures
        final(s)@ == old(s)@ + pad2_text(n as int),
{
    if 0 <= n && n < 10 {
        s.append("0");
        proof {
            reveal_strlit("0");
        }
        append_decimal(s, n as u32);
        assert(s@ =~= old(s)@ + pad2_text(n as int));
    } else {
        append_int(s, n);
    }
}

fn join_strings(v: &Vec<String>) -> (r: String)
    ensures
        r@ == join_text(v@.map_values(|x: String| x@)),
{
    let ghost w = v@.map_values(|x: String| x@);
    let mut r = String::new();
    let mut i: usize = 0;
    while i < v.len()
        invariant
            i <= v@.len(),
            w == v@.map_values(|x: String| x@),
            r@ == join_text(w.subrange(0, i as int)),
        decreases v@.len() - i,
    {
        proof {
            assert(w.subrange(0, i + 1).drop_last() =~= w.subrange(0, i as int));
        }
        if i > 0 {
            r.append(", ");
        }
        r.append(v[i].as_str());
        i = i + 1;
    }
    assert(w.subrange(0, v@.len() as int) =~= w);
    r
}

fn kind_is(item: &NowPlayingItem, kind: &str) -> (r: bool)
    ensures
        r == (item@.item_type == Some(kind@)),
{
    match &item.item_type {
        Some(t) => {
            let k = String::from_str(kind);
            *t == k
        },
        None => false,
    }
}

fn state_line(item: &NowPlayingItem) -> (r: String)
    ensures
        r@ == state_text(item@),
{
    if kind_is(item, "Audio") {
        match &item.artists {
            Some(a) => join_strings(a),
            None => String::new(),
        }
    } else if kind_is(item, "Movie") {
        match item.production_year {
            Some(y) => {
                let mut s = String::new();
                append_int(&mut s, y);
                s
            },
            None => String::from_str("Movie"),
        }
    } else if kind_is(item, "Episode") {
        match (item.season_number, item.episode_number, &item.series_name) {
            (Some(season), Some(ep), Some(series)) => {
                let mut s = String::from_str("S");
                append_pad2(&mut s, season);
                s.append("E");
                append_pad2(&mut s, ep);
                s.append(" \u{2013} ");
                s.append(series.as_str());
                s
            },
            _ => match &item.series_name {
                Some(n) => n.clone(),
                None => String::from_str("TV Show"),
            },
        }
    } else {
        String::new()
    }
}

/// The activity that shows `item` with `elapsed` of `runtime` seconds played at
/// clock second `now`, with artwork from server `base`.
pub fn build_activity(
    item: &NowPlayingItem,
    elapsed: i64,
    runtime: i64,
    now: i64,
    base: &str,
    api_key: &str,
) -> (r: Activity)
    ensures
        r.details@ == item@.name,
        r.state@ == state_text(item@),
        r.large_image@ == match cover_id(item@) {
            Some(id) => image_url(base@, api_key@, id),
            None => "default"@,
        },
        r.start == clamp_i64(now - shown_elapsed(elapsed, runtime)),
        r.end == clamp_i64(r.start + if runtime > 0 { runtime as int } else { 1 }),
        r.activity_type == kind_code(item@),
{
    let state = state_line(item);
    let large_image = match get_cover_url(item, base, api_key) {
        Some(u) => u,
        None => String::from_str("default"),
    };
    let shown: i64 = if runtime > 0 && runtime < elapsed {
        runtime
    } else {
        elapsed
    };
    let s: i128 = now as i128 - shown as i128;
    let start: i64 = if s > i64::MAX as i128 {
        i64::MAX
    } else if s < i64::MIN as i128 {
        i64::MIN
    } else {
        s as i64
    };
    let span: i64 = if runtime > 0 {
        runtime
    } else {
        1
    };
    let e: i128 = start as i128 + span as i128;
    let end: i64 = if e > i64::MAX as i128 {
        i64::MAX
    } else {
        e as i64
    };
    let activity_type: u8 = if kind_is(item, "Audio") {
        2
    } else {
        3
    };
    Activity { details: item.name.clone(), state, large_image, start, end, activity_type }
}

} // verus!
