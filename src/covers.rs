use vstd::prelude::*;
use vstd::string::StringExecFns;
use crate::jellyfin::{ItemView, NowPlayingItem};

verus! {

/// The item carries its own primary image.
pub open spec fn has_primary_spec(it: ItemView) -> bool {
    match it.image_tags {
        Some(t) => exists|i: int| 0 <= i < t.len() && t[i].0 == "Primary"@,
        None => false,
    }
}

/// The id whose primary image stands for the item, by kind-specific precedence.
pub open spec fn cover_id(it: ItemView) -> Option<Seq<char>> {
    match it.item_type {
        None => None,
        Some(t) => if t == "Audio"@ {
            if has_primary_spec(it) {
                Some(it.id)
            } else if it.album_id is Some {
                it.album_id
            } else {
                it.parent_id
            }
        } else if t == "Episode"@ {
            if it.season_id is Some {
                it.season_id
            } else if it.series_id is Some {
                it.series_id
            } else if has_primary_spec(it) {
                Some(it.id)
            } else {
                None
            }
        } else if t == "Movie"@ {
            if has_primary_spec(it) {
                Some(it.id)
            } else if it.parent_id is Some {
                it.parent_id
            } else {
                Some(it.id)
            }
        } else {
            Some(it.id)
        },
    }
}

/// The URL of the primary image of item `id` on server `base`.
pub open spec fn image_url(base: Seq<char>, key: Seq<char>, id: Seq<char>) -> Seq<char> {
    base + "/Items/"@ + id + "/Images/Primary?maxWidth=512&quality=90&api_key="@ + key
}

pub fn has_primary(item: &NowPlayingItem) -> (r: bool)
    ensures
        r == has_primary_spec(item@),
{
    match &item.image_tags {
        None => false,
        Some(tags) => {
            let primary = String::from_str("Primary");
            let mut i: usize = 0;
            while i < tags.len()
                invariant
                    i <= tags@.len(),
                    primary@ == "Primary"@,
                    item.image_tags == Some(*tags),
                    forall|j: int| 0 <= j < i ==> tags@[j].0@ != "Primary"@,
                decreases tags@.len() - i,
            {
                if tags[i].0 == primary {
                    assert(item@.image_tags->0[i as int].0 == "Primary"@);
                    return true;
                }
                i = i + 1;
            }
            assert forall|j: int| 0 <= j < item@.image_tags->0.len() implies item@.image_tags->0[j].0
                != "Primary"@ by {
                assert(item@.image_tags->0[j].0 == tags@[j].0@);
            }
            false
        },
    }
}

fn image_url_for(base: &str, api_key: &str, id: &String) -> (r: String)
    ensures
        r@ == image_url(base@, api_key@, id@),
{
    let mut u = String::from_str(base);
    u.append("/Items/");
    u.append(id.as_str());
    u.append("/Images/Primary?maxWidth=512&quality=90&api_key=");
    u.append(api_key);
    u
}

fn is_kind(t: &String, kind: &str) -> (r: bool)
    ensures
        r == (t@ == kind@),
{
    let k = String::from_str(kind);
    *t == k
}

/// The artwork URL for `item` on server `base`, or `None` when no id qualifies.
pub fn get_cover_url(item: &NowPlayingItem, base: &str, api_key: &str) -> (r: Option<String>)
    ensures
        match cover_id(item@) {
            Some(id) => r is Some && r->0@ == image_url(base@, api_key@, id),
            None => r is None,
        },
{
    let t = match &item.item_type {
        Some(t) => t,
        None => return None,
    };
    let primary = has_primary(item);
    if is_kind(t, "Audio") {
        if primary {
            return Some(image_url_for(base, api_key, &item.id));
        }
        if let Some(album_id) = &item.album_id {
            return Some(image_url_for(base, api_key, album_id));
        }
        if let Some(parent_id) = &item.parent_id {
            return Some(image_url_for(base, api_key, parent_id));
        }
        None
    } else if is_kind(t, "Episode") {
        if let Some(season_id) = &item.season_id {
            return Some(image_url_for(base, api_key, season_id));
        }
        if let Some(series_id) = &item.series_id {
            return Some(image_url_for(base, api_key, series_id));
        }
        if primary {
            return Some(image_url_for(base, api_key, &item.id));
        }
        None
    } else if is_kind(t, "Movie") {
        if primary {
            return Some(image_url_for(base, api_key, &item.id));
        }
        if let Some(parent_id) = &item.parent_id {
            return Some(image_url_for(base, api_key, parent_id));
        }
        Some(image_url_for(base, api_key, &item.id))
    } else {
        Some(image_url_for(base, api_key, &item.id))
    }
}

} // verus!
