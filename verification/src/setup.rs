use vstd::prelude::*;
use crate::region::RegionData;
use crate::scan::{lowercase, to_lowercase};
use crate::text::string_push;
use crate::targeted::first_index;

verus! {

// ---------------------------------------------------------------------------
// Settings of a region and of the game, read when a region is set up

/// The text with its leading and trailing whitespace (as Unicode defines it) removed.
pub uninterp spec fn trimmed(text: Seq<char>) -> Seq<char>;

/// Removes leading and trailing whitespace from a text.
///
/// Trusted: calls `str::trim`, which removes the characters of the Unicode White_Space
/// property from both ends. The result is named by [`trimmed`]: it depends on the text
/// alone.
#[verifier::external_body]
fn trim_text(text: &str) -> (r: String)
    ensures
        r@ == trimmed(text@),
{
    text.trim().to_string()
}

/// Whether the region's "movement" setting asks for movement from tile to tile, which
/// is not animated: it does when it reads "tile" in any case.
pub open spec fn tile_movement(movement: Option<String>) -> bool {
    match movement {
        Some(m) => lowercase(m@) == "tile"@,
        None => false,
    }
}

/// Applies the region's "movement" setting: "tile" (in any case) switches off the
/// animated, pixel based movement; anything else leaves it as it is.
pub fn apply_movement_setting(data: &mut RegionData, movement: Option<String>)
    ensures
        *final(data) == (RegionData {
            pixel_based_movement: if tile_movement(movement) { false } else { old(data).pixel_based_movement },
            ..*old(data)
        }),
{
    match movement {
        Some(m) => {
            let lower = to_lowercase(m.as_str());
            let tile = String::from_str("tile");
            proof {
                reveal_strlit("tile");
            }
            if lower == tile {
                data.pixel_based_movement = false;
            }
        },
        None => {},
    }
}

/// Splitting the first k characters at commas: the finished pieces and the piece after
/// the last comma.
pub open spec fn comma_pieces(s: Seq<char>, k: nat) -> (Seq<Seq<char>>, Seq<char>)
    decreases k,
{
    if k == 0 {
        (Seq::empty(), Seq::empty())
    } else {
        let (done, cur) = comma_pieces(s, (k - 1) as nat);
        if s[k - 1] == ',' {
            (done.push(cur), Seq::empty())
        } else {
            (done, cur.push(s[k - 1]))
        }
    }
}

/// The pieces of a text between its commas, in order; a text without commas is one
/// piece.
pub open spec fn split_at_commas(s: Seq<char>) -> Seq<Seq<char>> {
    let (done, cur) = comma_pieces(s, s.len());
    done.push(cur)
}

/// The slot names a "gear_slots" or "weapon_slots" setting lists: its comma separated
/// pieces, each in lowercase and without surrounding whitespace.
pub open spec fn slot_names(setting: Seq<char>) -> Seq<Seq<char>> {
    split_at_commas(setting).map_values(|p: Seq<char>| trimmed(lowercase(p)))
}

fn slot_name(piece: &String) -> (r: String)
    ensures
        r@ == trimmed(lowercase(piece@)),
{
    let lower = to_lowercase(piece.as_str());
    trim_text(lower.as_str())
}

/// Reads the slots a "gear_slots" or "weapon_slots" setting lists; see [`slot_names`].
pub fn slot_list(setting: &String) -> (r: Vec<String>)
    ensures
        r@.len() == slot_names(setting@).len(),
        forall|i: int| 0 <= i < r@.len() ==> #[trigger] r@[i]@ == slot_names(setting@)[i],
{
    let text = setting.as_str();
    let n = text.unicode_len();
    let mut r: Vec<String> = Vec::new();
    let mut cur = String::new();
    let mut k: usize = 0;
    while k < n
        invariant
            k <= n,
            n == setting@.len(),
            text@ == setting@,
            r@.len() == comma_pieces(setting@, k as nat).0.len(),
            forall|i: int| 0 <= i < r@.len() ==> #[trigger] r@[i]@ == trimmed(lowercase(comma_pieces(setting@, k as nat).0[i])),
            cur@ == comma_pieces(setting@, k as nat).1,
        decreases n - k,
    {
        let c = text.get_char(k);
        let ghost before = comma_pieces(setting@, k as nat);
        if c == ',' {
            let piece = slot_name(&cur);
            r.push(piece);
            cur = String::new();
        } else {
            string_push(&mut cur, c);
        }
        k = k + 1;
        assert(comma_pieces(setting@, k as nat) == if c == ',' {
            (before.0.push(before.1), Seq::<char>::empty())
        } else {
            (before.0, before.1.push(c))
        });
    }
    let last = slot_name(&cur);
    r.push(last);
    r
}

// ---------------------------------------------------------------------------
// The `state` property of an item's settings

/// The value a settings text gives a boolean property: "true" or "false".
pub open spec fn bool_value(v: Seq<char>) -> Option<bool> {
    if v == "true"@ {
        Some(true)
    } else if v == "false"@ {
        Some(false)
    } else {
        None
    }
}

/// Whether a character is the `=` between a property's name and its value.
pub open spec fn is_equals() -> spec_fn(char, int) -> bool {
    |c: char, k: int| c == '='
}

/// What a line of a settings text says of the `state` property: nothing for a comment
/// (a line starting with `//` once trimmed) or a line of another property or without
/// `=`; for a `state = value` line (name and value trimmed), the value as a boolean.
pub open spec fn state_line(line: Seq<char>) -> Option<Option<bool>> {
    let t = trimmed(line);
    if t.len() >= 2 && t[0] == '/' && t[1] == '/' {
        None
    } else {
        match first_index(t, is_equals(), 0) {
            Some(e) => if trimmed(t.take(e)) == "state"@ {
                Some(bool_value(trimmed(t.skip(e + 1))))
            } else {
                None
            },
            None => None,
        }
    }
}

/// Reading the first k characters of a settings text line by line: what the first line
/// about `state` said, if one did, and the line being read.
pub open spec fn state_scan(s: Seq<char>, k: nat) -> (Option<Option<bool>>, Seq<char>)
    decreases k,
{
    if k == 0 {
        (None, Seq::empty())
    } else {
        let (found, cur) = state_scan(s, (k - 1) as nat);
        if s[k - 1] == '\n' {
            (if found is Some { found } else { state_line(cur) }, Seq::empty())
        } else {
            (found, cur.push(s[k - 1]))
        }
    }
}

/// The `state` property of a settings text: the value on its first line about `state`;
/// none without such a line or where the value is not a boolean.
pub open spec fn state_of(s: Seq<char>) -> Option<bool> {
    let (found, cur) = state_scan(s, s.len());
    match found {
        Some(v) => v,
        None => match state_line(cur) {
            Some(v) => v,
            None => None,
        },
    }
}

proof fn lemma_found_stays(s: Seq<char>, k: nat, n: nat)
    requires
        k <= n,
        state_scan(s, k).0 is Some,
    ensures
        state_scan(s, n).0 == state_scan(s, k).0,
    decreases n - k,
{
    if k < n {
        lemma_found_stays(s, k, (n - 1) as nat);
    }
}

/// Copies the characters of the text from `from` up to `to`.
fn chars_between(text: &str, from: usize, to: usize) -> (r: String)
    requires
        from <= to <= text@.len(),
    ensures
        r@ == text@.subrange(from as int, to as int),
{
    let mut r = String::new();
    let mut k = from;
    while k < to
        invariant
            from <= k <= to,
            to <= text@.len(),
            r@ == text@.subrange(from as int, k as int),
        decreases to - k,
    {
        string_push(&mut r, text.get_char(k));
        k = k + 1;
        assert(r@ =~= text@.subrange(from as int, k as int));
    }
    r
}

/// Reads what a line of a settings text says of the `state` property; see
/// [`state_line`].
fn read_state_line(line: &String) -> (r: Option<Option<bool>>)
    ensures
        r == state_line(line@),
{
    let t = trim_text(line.as_str());
    let ts = t.as_str();
    let n = ts.unicode_len();
    if n >= 2 && ts.get_char(0) == '/' && ts.get_char(1) == '/' {
        return None;
    }
    let ghost p = is_equals();
    let mut e: usize = 0;
    let mut found = false;
    while e < n && !found
        invariant
            e <= n,
            n == t@.len(),
            ts@ == t@,
            p == is_equals(),
            found ==> e < n && t@[e as int] == '=',
            !found ==> first_index(t@, p, 0) == first_index(t@, p, e as nat),
            found ==> first_index(t@, p, 0) == Some(e as int),
        decreases n - e + (if found { 0int } else { 1int }),
    {
        if ts.get_char(e) == '=' {
            found = true;
        } else {
            e = e + 1;
        }
    }
    if !found {
        return None;
    }
    assert(first_index(t@, p, 0) == Some(e as int));
    let name = chars_between(ts, 0, e);
    assert(name@ =~= t@.take(e as int));
    let name_t = trim_text(name.as_str());
    let state = String::from_str("state");
    proof {
        reveal_strlit("state");
        reveal_strlit("true");
        reveal_strlit("false");
    }
    if name_t != state {
        return None;
    }
    let value = chars_between(ts, e + 1, n);
    assert(value@ =~= t@.skip(e + 1));
    let value_t = trim_text(value.as_str());
    let yes = String::from_str("true");
    let no = String::from_str("false");
    if value_t == yes {
        Some(Some(true))
    } else if value_t == no {
        Some(Some(false))
    } else {
        Some(None)
    }
}

/// Reads the `state` property of an item's settings text; see [`state_of`].
pub fn state_setting(settings: &String) -> (r: Option<bool>)
    ensures
        r == state_of(settings@),
{
    let text = settings.as_str();
    let n = text.unicode_len();
    let mut cur = String::new();
    let mut k: usize = 0;
    while k < n
        invariant
            k <= n,
            n == settings@.len(),
            text@ == settings@,
            state_scan(settings@, k as nat) == (None::<Option<bool>>, cur@),
        decreases n - k,
    {
        let c = text.get_char(k);
        if c == '\n' {
            let line = read_state_line(&cur);
            match line {
                Some(v) => {
                    proof {
                        assert(state_scan(settings@, (k + 1) as nat).0 == Some(v));
                        lemma_found_stays(settings@, (k + 1) as nat, n as nat);
                    }
                    return v;
                },
                None => {
                    cur = String::new();
                },
            }
        } else {
            string_push(&mut cur, c);
        }
        k = k + 1;
    }
    match read_state_line(&cur) {
        Some(v) => v,
        None => None,
    }
}

} // verus!
