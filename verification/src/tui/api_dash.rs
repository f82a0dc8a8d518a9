//! The status board of a few web services, one line for each.

use vstd::prelude::*;
use crate::tui::text::lines;

verus! {

/// The services and their states at `tick`, as texts: the first service
/// is up at even ticks and down at odd ones, the second is always up, the
/// third always down.
pub open spec fn fake_status(tick: nat) -> Seq<(Seq<char>, Seq<char>)> {
    seq![
        (
            "https://api.github.com"@,
            if tick % 2 == 0 {
                "Live"@
            } else {
                "Error"@
            },
        ),
        ("https://example.com"@, "Live"@),
        ("https://httpstat.us/503"@, "Error"@),
    ]
}

/// The entries of a status list, each as a pair of texts.
pub open spec fn status_view(data: Vec<(String, String)>) -> Seq<(Seq<char>, Seq<char>)> {
    Seq::new(data@.len(), |i: int| (data@[i].0@, data@[i].1@))
}

/// The sign in front of a service: a check mark where it is live, a
/// cross where it failed, a warning sign for any other state.
pub open spec fn status_icon(status: Seq<char>) -> Seq<char> {
    if status == "Live"@ {
        "\u{2705}"@
    } else if status == "Error"@ {
        "\u{274c}"@
    } else {
        "\u{26a0}\u{fe0f}"@
    }
}

/// The line of one service: its sign, two blanks, its address.
pub open spec fn status_line(entry: (Seq<char>, Seq<char>)) -> Seq<char> {
    status_icon(entry.1) + "  "@ + entry.0
}

/// The frame of the status board for `data`: the heading, an empty line,
/// and a line for each service.
pub open spec fn status_frame(data: Seq<(Seq<char>, Seq<char>)>) -> Seq<Seq<char>> {
    seq!["\u{1f4ca} API Status Dashboard"@, Seq::<char>::empty()] + Seq::new(
        data.len(),
        |i: int| status_line(data[i]),
    )
}

/// The services and their states at `tick`.
pub fn get_fake_status_data(tick: usize) -> (data: Vec<(String, String)>)
    ensures
        status_view(data) == fake_status(tick as nat),
{
    let first: &str = if tick % 2 == 0 {
        "Live"
    } else {
        "Error"
    };
    let mut data: Vec<(String, String)> = Vec::new();
    data.push((String::from_str("https://api.github.com"), String::from_str(first)));
    data.push((String::from_str("https://example.com"), String::from_str("Live")));
    data.push((String::from_str("https://httpstat.us/503"), String::from_str("Error")));
    assert(status_view(data) =~= fake_status(tick as nat));
    data
}

/// The sign in front of a service in the state `status`.
pub fn icon_of(status: &String) -> (icon: &'static str)
    ensures
        icon@ == status_icon(status@),
{
    let live: String = String::from_str("Live");
    let failed: String = String::from_str("Error");
    if *status == live {
        "\u{2705}"
    } else if *status == failed {
        "\u{274c}"
    } else {
        "\u{26a0}\u{fe0f}"
    }
}

/// The frame of the status board for `data`.
pub fn render_status(data: &Vec<(String, String)>) -> (frame: Vec<String>)
    ensures
        lines(frame) == status_frame(status_view(*data)),
{
    let mut frame: Vec<String> = Vec::new();
    frame.push(String::from_str("\u{1f4ca} API Status Dashboard"));
    frame.push(String::new());
    let mut i: usize = 0;
    while i < data.len()
        invariant
            i <= data@.len(),
            frame@.len() == i + 2,
            frame@[0]@ == "\u{1f4ca} API Status Dashboard"@,
            frame@[1]@ == Seq::<char>::empty(),
            forall|k: int|
                0 <= k < i ==> (#[trigger] frame@[k + 2])@ == status_line(status_view(*data)[k]),
        decreases data@.len() - i,
    {
        let mut line: String = String::from_str(icon_of(&data[i].1));
        line.append("  ");
        line.append(data[i].0.as_str());
        frame.push(line);
        i += 1;
    }
    proof {
        let wanted = status_frame(status_view(*data));
        assert(wanted.len() == frame@.len());
        assert forall|k: int| 0 <= k < wanted.len() implies lines(frame)[k] == wanted[k] by {
            if k >= 2 {
                assert(frame@[(k - 2) + 2]@ == status_line(status_view(*data)[k - 2]));
            }
        }
        assert(lines(frame) =~= wanted);
    }
    frame
}

/// The frame of the status board at `tick`.
pub fn render_api_dash(tick: usize) -> (frame: Vec<String>)
    ensures
        lines(frame) == status_frame(fake_status(tick as nat)),
{
    let data: Vec<(String, String)> = get_fake_status_data(tick);
    render_status(&data)
}

} // verus!
