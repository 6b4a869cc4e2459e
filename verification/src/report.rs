//! What is written out about clips and their creators, line by line.

use crate::clips::Clip;
use crate::text::{decimal, decimal_string, starts_with, texts};
use crate::user::{CacheError, User};
use vstd::prelude::*;
use vstd::string::*;

verus! {

/// Whether a clip was made at a time that begins with `prefix`.
pub open spec fn is_created_in(prefix: Seq<char>) -> spec_fn(Clip) -> bool {
    |clip: Clip| prefix.is_prefix_of(clip.created_at@)
}

/// The clips of `clips` made at a time that begins with `prefix`, in order.
pub fn created_in(clips: Vec<Clip>, prefix: &str) -> (kept: Vec<Clip>)
    ensures
        kept@ == clips@.filter(is_created_in(prefix@)),
{
    let mut kept: Vec<Clip> = Vec::new();
    let ghost all = clips@;
    for clip in it: clips
        invariant
            it.seq() == all,
            kept@ == all.take(it.index()).filter(is_created_in(prefix@)),
    {
        proof {
            reveal(Seq::filter);
            assert(all.take(it.index() + 1).drop_last() =~= all.take(it.index()));
        }
        if starts_with(clip.created_at.as_str(), prefix) {
            kept.push(clip);
        }
    }
    assert(all.take(all.len() as int) =~= all);
    kept
}

/// The id of the creator of each clip of `clips`, in order.
pub open spec fn creators_of(clips: Seq<Clip>) -> Seq<Seq<char>> {
    clips.map_values(|clip: Clip| clip.creator_id@)
}

/// The id of the creator of each clip of `clips`, in order.
pub fn creator_ids<'a>(clips: &'a Vec<Clip>) -> (ids: Vec<&'a str>)
    ensures
        texts(ids@) == creators_of(clips@),
{
    let mut ids: Vec<&'a str> = Vec::new();
    let mut i: usize = 0;
    while i < clips.len()
        invariant
            i <= clips.len(),
            ids.len() == i,
            forall|k: int| 0 <= k < i ==> (#[trigger] ids[k])@ == clips[k].creator_id@,
        decreases clips.len() - i,
    {
        ids.push(clips[i].creator_id.as_str());
        i = i + 1;
    }
    assert(texts(ids@) =~= creators_of(clips@));
    ids
}

/// The line that heads the list of clips.
pub open spec fn clips_heading() -> Seq<char> {
    "date, creator_id, clip_id, title, url, views"@
}

/// The line that describes `clip`: when it was made, by whom, its id, its title
/// between quotation marks, its address and its views.
pub open spec fn clip_line(clip: Clip) -> Seq<char> {
    clip.created_at@ + ", "@ + clip.creator_id@ + ", "@ + clip.id@ + ",\""@ + clip.title@
        + "\", "@ + clip.url@ + ", "@ + decimal(clip.view_count as nat)
}

/// The line that heads the list of creators.
pub open spec fn creators_heading() -> Seq<char> {
    "name, creator_id, clip_count, total_views"@
}

/// The line that describes a creator: name, id, number of clips and their views.
pub open spec fn creator_line(
    name: Seq<char>,
    creator_id: Seq<char>,
    clip_count: nat,
    total_views: nat,
) -> Seq<char> {
    name + ", "@ + creator_id + ", "@ + decimal(clip_count) + ", "@ + decimal(total_views)
}

/// The name under which a creator is listed whose user could not be had.
pub open spec fn unnamed() -> Seq<char> {
    "NO NAME"@
}

/// The line that heads the list of clips.
pub fn write_clips_heading() -> (line: String)
    ensures
        line@ == clips_heading(),
{
    String::from_str("date, creator_id, clip_id, title, url, views")
}

/// The line that describes `clip`.
pub fn write_clip_line(clip: &Clip) -> (line: String)
    ensures
        line@ == clip_line(*clip),
{
    let mut line = clip.created_at.clone();
    line.append(", ");
    line.append(clip.creator_id.as_str());
    line.append(", ");
    line.append(clip.id.as_str());
    line.append(",\"");
    line.append(clip.title.as_str());
    line.append("\", ");
    line.append(clip.url.as_str());
    line.append(", ");
    line.append(decimal_string(clip.view_count as usize).as_str());
    line
}

/// The line that heads the list of creators.
pub fn write_creators_heading() -> (line: String)
    ensures
        line@ == creators_heading(),
{
    String::from_str("name, creator_id, clip_count, total_views")
}

/// The line that describes the creator `creator_id`, known as `name`, of
/// `clip_count` clips that were viewed `total_views` times together.
pub fn write_creator_line(name: &str, creator_id: &str, clip_count: u32, total_views: u32) -> (line:
    String)
    ensures
        line@ == creator_line(name@, creator_id@, clip_count as nat, total_views as nat),
{
    let mut line = String::from_str(name);
    line.append(", ");
    line.append(creator_id);
    line.append(", ");
    line.append(decimal_string(clip_count as usize).as_str());
    line.append(", ");
    line.append(decimal_string(total_views as usize).as_str());
    line
}

/// The name under which a creator is listed: the display name of the user that
/// the lookup gave, or `unnamed()` where it gave none.
pub fn listed_name(lookup: Result<User, CacheError>) -> (name: String)
    ensures
        name@ == match lookup {
            Ok(user) => user.display_name@,
            Err(_) => unnamed(),
        },
{
    match lookup {
        Ok(user) => user.display_name,
        Err(_) => String::from_str("NO NAME"),
    }
}

} // verus!
