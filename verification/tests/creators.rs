use twitch::clips::Clip;
use twitch::creators::ClipToCreatorMap;

fn clip(creator: &str, views: u32) -> Clip {
    Clip {
        broadcaster_id: "b".to_string(),
        created_at: "2018-07-01T00:00:00Z".to_string(),
        creator_id: creator.to_string(),
        embed_url: String::new(),
        game_id: String::new(),
        id: String::new(),
        language: "en".to_string(),
        thumbnail_url: String::new(),
        title: String::new(),
        url: String::new(),
        video_id: String::new(),
        view_count: views,
    }
}

#[test]
fn no_clips_give_no_creators() {
    let clips: Vec<Clip> = Vec::new();
    let stats = clips.get_creator_map();
    assert!(stats.creators().is_empty());
    assert_eq!(stats.get("anyone"), None);
    assert_eq!(stats.count_for("anyone"), 0);
    assert_eq!(stats.views_for("anyone"), 0);
}

#[test]
fn one_clip_counts_once() {
    let clips = vec![clip("ann", 7)];
    let stats = clips.get_creator_map();
    assert_eq!(stats.get("ann"), Some((1, 7)));
    assert_eq!(stats.creators(), &vec!["ann".to_string()]);
}

#[test]
fn clips_are_counted_and_views_summed_by_creator() {
    let clips =
        vec![clip("ann", 10), clip("bob", 5), clip("ann", 32), clip("cy", 0), clip("ann", 1)];
    let stats = clips.get_creator_map();
    assert_eq!(stats.count_for("ann"), 3);
    assert_eq!(stats.views_for("ann"), 43);
    assert_eq!(stats.get("bob"), Some((1, 5)));
    assert_eq!(stats.get("cy"), Some((1, 0)));
    assert_eq!(stats.get("dee"), None);
}

#[test]
fn creators_are_listed_once_each() {
    let clips = vec![clip("ann", 10), clip("bob", 5), clip("ann", 32), clip("bob", 1)];
    let stats = clips.get_creator_map();
    let mut creators = stats.creators().clone();
    creators.sort();
    assert_eq!(creators, vec!["ann".to_string(), "bob".to_string()]);
}

#[test]
fn counts_do_not_depend_on_the_order_of_the_clips() {
    let forward = vec![clip("ann", 10), clip("bob", 5), clip("ann", 32)];
    let backward = vec![clip("ann", 32), clip("bob", 5), clip("ann", 10)];
    let a = forward.get_creator_map();
    let b = backward.get_creator_map();
    for creator in ["ann", "bob", "cy"] {
        assert_eq!(a.get(creator), b.get(creator));
    }
}

#[test]
fn counts_match_a_plain_count_for_every_creator() {
    let names = ["a", "b", "c", "d"];
    let mut clips: Vec<Clip> = Vec::new();
    for i in 0..57u32 {
        clips.push(clip(names[(i * i % 4) as usize], i * 3 % 11));
    }
    let stats = clips.get_creator_map();
    for name in names {
        let made: Vec<&Clip> = clips.iter().filter(|c| c.creator_id == name).collect();
        let views: u32 = made.iter().map(|c| c.view_count).sum();
        assert_eq!(stats.count_for(name) as usize, made.len());
        assert_eq!(stats.views_for(name), views);
    }
}

#[test]
fn creator_ids_differ_by_case() {
    let clips = vec![clip("Ann", 1), clip("ann", 2)];
    let stats = clips.get_creator_map();
    assert_eq!(stats.get("Ann"), Some((1, 1)));
    assert_eq!(stats.get("ann"), Some((1, 2)));
}

#[test]
fn checked_map_is_the_map_where_it_fits() {
    let clips = vec![clip("ann", u32::MAX - 1), clip("ann", 1), clip("bob", u32::MAX)];
    let stats = clips.checked_creator_map().expect("the totals fit");
    assert_eq!(stats.get("ann"), Some((2, u32::MAX)));
    assert_eq!(stats.get("bob"), Some((1, u32::MAX)));
}

#[test]
fn checked_map_is_none_where_views_do_not_fit() {
    let clips = vec![clip("ann", u32::MAX), clip("bob", 3), clip("ann", 1)];
    assert!(clips.checked_creator_map().is_none());
}

#[test]
fn views_of_different_creators_do_not_add_up() {
    let clips = vec![clip("ann", u32::MAX), clip("bob", u32::MAX)];
    assert!(clips.checked_creator_map().is_some());
}
