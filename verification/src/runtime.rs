//! Checks made when the service starts: the page templates must hold the
//! markers the service fills in.
use vstd::prelude::*;

use crate::text::{chars_of, contains, contains_text, push_str};

verus! {

/// The markers of the player template, in the order they are checked.
pub open spec fn player_markers() -> Seq<Seq<char>> {
    seq![
        "{{TITLE}}"@,
        "{{DESCRIPTION}}"@,
        "{{HLS_SCRIPT}}"@,
        "{{STREAM_URL_JSON}}"@,
        "{{EVENT_URL_JSON}}"@,
        "{{SOURCE_MODE_JSON}}"@,
        "{{HEARTBEAT_MILLISECONDS}}"@,
        "<video"@,
    ]
}

/// The markers of the web template, in the order they are checked.
pub open spec fn web_markers() -> Seq<Seq<char>> {
    seq![
        "{{PAGE_TITLE}}"@,
        "{{PAGE_ID_JSON}}"@,
        "{{SITE_NAME}}"@,
        "{{TAGLINE}}"@,
        "{{ASSET_BASE}}"@,
        "{{RUNTIME_CONFIG_JSON}}"@,
        "id=\"app\""@,
    ]
}

/// The first marker of `markers` that `template` lacks, if any.
pub open spec fn first_missing(template: Seq<char>, markers: Seq<Seq<char>>) -> Option<Seq<char>>
    decreases markers.len(),
{
    if markers.len() == 0 {
        None
    } else if !contains(template, markers[0]) {
        Some(markers[0])
    } else {
        first_missing(template, markers.drop_first())
    }
}

fn check_markers(template: &str, markers: &Vec<&str>, kind: &str) -> (r: Result<(), String>)
    ensures
        match first_missing(template@, markers@.map_values(|m: &str| m@)) {
            None => r is Ok,
            Some(m) => r matches Err(e) && e@ == kind@ + " template is missing required marker "@ + m,
        },
{
    let v = chars_of(template);
    let ghost all = markers@.map_values(|m: &str| m@);
    let mut i: usize = 0;
    assert(all.skip(0) == all);
    while i < markers.len()
        invariant
            i <= markers@.len(),
            v@ == template@,
            all == markers@.map_values(|m: &str| m@),
            first_missing(template@, all) == first_missing(template@, all.skip(i as int)),
        decreases markers@.len() - i,
    {
        assert(all.skip(i as int)[0] == markers@[i as int]@);
        assert(all.skip(i as int).drop_first() == all.skip(i + 1));
        if !contains_text(&v, markers[i]) {
            let mut e = kind.to_owned();
            push_str(&mut e, " template is missing required marker ");
            push_str(&mut e, markers[i]);
            return Err(e);
        }
        i = i + 1;
    }
    assert(all.skip(i as int).len() == 0);
    Ok(())
}

/// The player template must hold every marker the player page fills in, and
/// a `<video` element.
pub fn validate_player_template(template: &str) -> (r: Result<(), String>)
    ensures
        match first_missing(template@, player_markers()) {
            None => r is Ok,
            Some(m) => r matches Err(e) && e@ == "player template is missing required marker "@ + m,
        },
{
    let markers: Vec<&str> = vec![
        "{{TITLE}}",
        "{{DESCRIPTION}}",
        "{{HLS_SCRIPT}}",
        "{{STREAM_URL_JSON}}",
        "{{EVENT_URL_JSON}}",
        "{{SOURCE_MODE_JSON}}",
        "{{HEARTBEAT_MILLISECONDS}}",
        "<video",
    ];
    assert(markers@.map_values(|m: &str| m@) =~= player_markers());
    proof {
        reveal_strlit("player");
        reveal_strlit("player template is missing required marker ");
        reveal_strlit(" template is missing required marker ");
        assert("player"@ + " template is missing required marker "@ =~= "player template is missing required marker "@);
    }
    let r = check_markers(template, &markers, "player");
    r
}

/// The web template must hold every marker a page fills in, and the
/// element the interface mounts on.
pub fn validate_web_template(template: &str) -> (r: Result<(), String>)
    ensures
        match first_missing(template@, web_markers()) {
            None => r is Ok,
            Some(m) => r matches Err(e) && e@ == "web template is missing required marker "@ + m,
        },
{
    let markers: Vec<&str> = vec![
        "{{PAGE_TITLE}}",
        "{{PAGE_ID_JSON}}",
        "{{SITE_NAME}}",
        "{{TAGLINE}}",
        "{{ASSET_BASE}}",
        "{{RUNTIME_CONFIG_JSON}}",
        "id=\"app\"",
    ];
    assert(markers@.map_values(|m: &str| m@) =~= web_markers());
    proof {
        reveal_strlit("web");
        reveal_strlit("web template is missing required marker ");
        reveal_strlit(" template is missing required marker ");
        assert("web"@ + " template is missing required marker "@ =~= "web template is missing required marker "@);
    }
    check_markers(template, &markers, "web")
}

} // verus!
