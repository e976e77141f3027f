use vstd::prelude::*;
use crate::cli::Cli;
use crate::display::{json_selection, opt_str, output_json, output_text, positions, text_report, text_shown, tx_total, rx_total, LineView};
use crate::style::{line_view, lines_view, plain, seg_owned, Color, Segment, Style};
use crate::text::{decimal, decimal_string};
use crate::types::AdapterInfo;

verus! {

/// What one display run produces: the positions of the adapters to list as JSON, or the
/// error and output lines of the text view.
pub enum Output {
    Json(Vec<usize>),
    Text(Vec<Vec<Segment>>, Vec<Vec<Segment>>),
}

/// One display run over the adapters: JSON with `--json`, text otherwise.
pub fn run_once(adapters: &Vec<AdapterInfo>, cli: &Cli, version: &str, host: &Option<String>, time: &str) -> (r: Output)
    requires
        !cli.json && cli.summary ==> rx_total(text_shown(adapters@, *cli)) <= u64::MAX,
        !cli.json && cli.summary ==> tx_total(text_shown(adapters@, *cli)) <= u64::MAX,
    ensures
        cli.json ==> (r matches Output::Json(p) && positions(p@) == json_selection(adapters@, opt_str(cli.interface), cli.all)),
        !cli.json ==> (r matches Output::Text(e, o) && (lines_view(e@), lines_view(o@)) == text_report(adapters@, *cli, version@, opt_str(*host), time@)),
{
    if cli.json {
        Output::Json(output_json(adapters, &cli.interface, cli.all))
    } else {
        let (e, o) = output_text(adapters, cli, version, host, time);
        Output::Text(e, o)
    }
}

/// The line above each refresh in watch mode, then an empty line.
pub open spec fn watch_lines(interval: u64, time: Seq<char>) -> Seq<LineView> {
    seq![
        seq![("🔄 Refreshing every "@ + decimal(interval as nat) + "s — Last update: "@ + time, plain())],
        Seq::empty(),
    ]
}

/// The line above each refresh in watch mode, then an empty line.
pub fn watch_header(interval: u64, time: &str) -> (r: Vec<Vec<Segment>>)
    ensures
        lines_view(r@) == watch_lines(interval, time@),
{
    let mut t = "🔄 Refreshing every ".to_owned();
    t.append(decimal_string(interval).as_str());
    t.append("s — Last update: ");
    t.append(time);
    let ghost tv = t@;
    let l = vec![seg_owned(t, Color::Plain, false, false)];
    assert(line_view(l@) =~= seq![(tv, plain())]);
    let e: Vec<Segment> = Vec::new();
    assert(line_view(e@) =~= Seq::<(Seq<char>, Style)>::empty());
    let r = vec![l, e];
    assert(r@[0]@ == l@ && r@[1]@ == e@);
    assert(lines_view(r@) =~= watch_lines(interval, time@));
    r
}

} // verus!
