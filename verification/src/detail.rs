//! The details of an insight, line by line.
use vstd::prelude::*;
use vstd::string::StringExecFns;

use crate::snapshot::{RuntimeInsightSnapshot, RuntimeInsightStateSnapshot};
use crate::text::{decimal, decimal_text, option_view};
use crate::time::{clock, format_time, time_text, UtcTime};
use crate::tui::{option_value, or_dash};

verus! {

/// A line of details: a label and a value, or only a text.
#[derive(Debug)]
pub struct DetailLine {
    pub label: Option<String>,
    pub value: String,
}

/// The model of a line.
#[verifier::ext_equal]
pub struct LineView {
    pub label: Option<Seq<char>>,
    pub value: Seq<char>,
}

impl View for DetailLine {
    type V = LineView;

    open spec fn view(&self) -> LineView {
        LineView { label: option_view(self.label), value: self.value@ }
    }
}

/// The numbers of an insight as they are shown: quantities with four digits, prices with five.
#[derive(Debug)]
pub struct ShownNumbers {
    pub quantity: Option<String>,
    pub contracts: Option<String>,
    pub limit_price: Option<String>,
    pub stop_price: Option<String>,
    pub take_profit_levels: Vec<String>,
    pub stop_loss_levels: Vec<String>,
    pub filled_price: Option<String>,
    pub close_price: Option<String>,
}

/// The models of lines.
pub open spec fn line_views(lines: Seq<DetailLine>) -> Seq<LineView> {
    lines.map_values(|line: DetailLine| line@)
}

/// A line with a label.
pub open spec fn labelled(label: Seq<char>, value: Seq<char>) -> LineView {
    LineView { label: Some(label), value }
}

/// A line without a label.
pub open spec fn plain(value: Seq<char>) -> LineView {
    LineView { label: None, value }
}

/// The texts with commas between them.
pub open spec fn comma_separated(items: Seq<String>) -> Seq<char>
    decreases items.len(),
{
    if items.len() == 0 {
        Seq::empty()
    } else if items.len() == 1 {
        items[0]@
    } else {
        comma_separated(items.drop_last()) + ", "@ + items.last()@
    }
}

/// How levels are shown: with commas between them, or as a dash where there are none.
pub open spec fn shown_levels(items: Seq<String>) -> Seq<char> {
    if items.len() == 0 {
        "-"@
    } else {
        comma_separated(items)
    }
}

/// How levels are shown.
pub fn levels_value(items: &Vec<String>) -> (r: String)
    ensures
        r@ == shown_levels(items@),
{
    if items.len() == 0 {
        return "-".to_owned();
    }
    let mut s = items[0].clone();
    let mut i: usize = 1;
    proof {
        assert(items@.take(1).len() == 1);
    }
    while i < items.len()
        invariant
            1 <= i <= items.len(),
            s@ == comma_separated(items@.take(i as int)),
        decreases items.len() - i,
    {
        proof {
            assert(items@.take(i + 1).drop_last() =~= items@.take(i as int));
        }
        s.append(", ");
        s.append(items[i].as_str());
        i = i + 1;
    }
    proof {
        assert(items@.take(i as int) =~= items@);
    }
    s
}

/// How a time is shown, or a dash where there is none.
pub open spec fn shown_time(at: Option<UtcTime>) -> Seq<char> {
    match at {
        Some(at) => time_text(at.secs, at.nanos, "%Y-%m-%d %H:%M:%S"@),
        None => "-"@,
    }
}

/// How a time is shown.
pub fn time_value(at: Option<UtcTime>) -> (r: String)
    requires
        at matches Some(at) ==> at.wf(),
    ensures
        r@ == shown_time(at),
{
    match at {
        Some(at) => format_time(at, "%Y-%m-%d %H:%M:%S"),
        None => "-".to_owned(),
    }
}

/// Two values with a slash between them.
pub open spec fn slashed(a: Seq<char>, b: Seq<char>) -> Seq<char> {
    a + " / "@ + b
}

fn with_slash(a: &str, b: &str) -> (r: String)
    ensures
        r@ == slashed(a@, b@),
{
    let mut s = a.to_owned();
    s.append(" / ");
    s.append(b);
    s
}

/// The line of an entry of an insight's history: when, which state, and why, or a dash where
/// nothing is said.
pub open spec fn history_line(entry: RuntimeInsightStateSnapshot) -> LineView {
    let message = match entry.message {
        Some(message) => if message@.len() > 0 {
            message@
        } else {
            "-"@
        },
        None => "-"@,
    };
    labelled(clock(entry.at), entry.state@ + " "@ + message)
}

fn history_entry(entry: &RuntimeInsightStateSnapshot) -> (r: DetailLine)
    requires
        entry.at.wf(),
    ensures
        r@ == history_line(*entry),
{
    let mut value = entry.state.clone();
    value.append(" ");
    match &entry.message {
        Some(message) => {
            if message.as_str().unicode_len() > 0 {
                value.append(message.as_str());
            } else {
                value.append("-");
            }
        },
        None => {
            value.append("-");
        },
    }
    DetailLine { label: Some(format_time(entry.at, "%H:%M:%S")), value }
}

/// The lines of an insight's history.
pub open spec fn history_lines(entries: Seq<RuntimeInsightStateSnapshot>) -> Seq<LineView> {
    if entries.len() == 0 {
        Seq::empty()
    } else {
        seq![plain("State history"@)] + entries.map_values(
            |entry: RuntimeInsightStateSnapshot| history_line(entry),
        )
    }
}

/// The lines of an insight without its history.
pub open spec fn own_lines(insight: RuntimeInsightSnapshot, numbers: ShownNumbers) -> Seq<LineView> {
    seq![
        labelled("ID"@, insight.insight_id@),
        labelled("Symbol"@, insight.symbol@),
        labelled("State"@, insight.state@),
        labelled("Side"@, insight.side@),
        labelled("Strategy"@, insight.strategy_type@),
        labelled("Order"@, or_dash(option_view(insight.order_id))),
        labelled("Close order"@, or_dash(option_view(insight.close_order_id))),
        labelled("Qty"@, or_dash(option_view(numbers.quantity))),
        labelled("Contracts"@, or_dash(option_view(numbers.contracts))),
        labelled("Type"@, slashed(insight.order_type@, insight.order_class@)),
        labelled(
            "Limit/Stop"@,
            slashed(
                or_dash(option_view(numbers.limit_price)),
                or_dash(option_view(numbers.stop_price)),
            ),
        ),
        labelled("TP"@, shown_levels(numbers.take_profit_levels@)),
        labelled("SL"@, shown_levels(numbers.stop_loss_levels@)),
        labelled(
            "Filled/Close"@,
            slashed(
                or_dash(option_view(numbers.filled_price)),
                or_dash(option_view(numbers.close_price)),
            ),
        ),
        labelled("Confidence"@, decimal(insight.confidence as nat)),
        labelled("Updated"@, shown_time(insight.updated_at)),
    ]
}

/// Whether the times that are shown can be told.
pub open spec fn can_be_shown(insight: RuntimeInsightSnapshot) -> bool {
    &&& insight.updated_at matches Some(at) ==> at.wf()
    &&& forall|i: int|
        0 <= i < insight.state_history@.len() ==> (#[trigger] insight.state_history@[i]).at.wf()
}

fn add_line(lines: &mut Vec<DetailLine>, label: &str, value: String)
    ensures
        line_views(final(lines)@) == line_views(old(lines)@).push(labelled(label@, value@)),
{
    let ghost before = line_views(lines@);
    let ghost v = value@;
    lines.push(DetailLine { label: Some(label.to_owned()), value });
    proof {
        assert(line_views(lines@) =~= before.push(labelled(label@, v)));
    }
}

fn insight_lines(insight: &RuntimeInsightSnapshot, numbers: &ShownNumbers) -> (r: Vec<DetailLine>)
    requires
        insight.updated_at matches Some(at) ==> at.wf(),
    ensures
        line_views(r@) == own_lines(*insight, *numbers),
{
    let mut lines: Vec<DetailLine> = Vec::new();
    proof {
        assert(line_views(lines@) =~= Seq::<LineView>::empty());
    }
    add_line(&mut lines, "ID", insight.insight_id.clone());
    add_line(&mut lines, "Symbol", insight.symbol.clone());
    add_line(&mut lines, "State", insight.state.clone());
    add_line(&mut lines, "Side", insight.side.clone());
    add_line(&mut lines, "Strategy", insight.strategy_type.clone());
    add_line(&mut lines, "Order", option_value(&insight.order_id));
    add_line(&mut lines, "Close order", option_value(&insight.close_order_id));
    add_line(&mut lines, "Qty", option_value(&numbers.quantity));
    add_line(&mut lines, "Contracts", option_value(&numbers.contracts));
    add_line(
        &mut lines,
        "Type",
        with_slash(insight.order_type.as_str(), insight.order_class.as_str()),
    );
    add_line(
        &mut lines,
        "Limit/Stop",
        with_slash(
            option_value(&numbers.limit_price).as_str(),
            option_value(&numbers.stop_price).as_str(),
        ),
    );
    add_line(&mut lines, "TP", levels_value(&numbers.take_profit_levels));
    add_line(&mut lines, "SL", levels_value(&numbers.stop_loss_levels));
    add_line(
        &mut lines,
        "Filled/Close",
        with_slash(
            option_value(&numbers.filled_price).as_str(),
            option_value(&numbers.close_price).as_str(),
        ),
    );
    add_line(&mut lines, "Confidence", decimal_text(insight.confidence as u64));
    add_line(&mut lines, "Updated", time_value(insight.updated_at));
    proof {
        assert(line_views(lines@) =~= own_lines(*insight, *numbers));
    }
    lines
}

/// The details of the insight that is chosen, or a hint where none is.
pub fn insight_detail_lines(
    insight: Option<&RuntimeInsightSnapshot>,
    numbers: &ShownNumbers,
) -> (r: Vec<DetailLine>)
    requires
        insight matches Some(insight) ==> can_be_shown(*insight),
    ensures
        line_views(r@) == (match insight {
            Some(insight) => own_lines(*insight, *numbers) + history_lines(
                insight.state_history@,
            ),
            None => seq![plain("Select an active insight to inspect it."@)],
        }),
{
    let insight = match insight {
        Some(insight) => insight,
        None => {
            let mut lines: Vec<DetailLine> = Vec::new();
            lines.push(
                DetailLine {
                    label: None,
                    value: "Select an active insight to inspect it.".to_owned(),
                },
            );
            proof {
                assert(line_views(lines@) =~= seq![
                    plain("Select an active insight to inspect it."@),
                ]);
            }
            return lines;
        },
    };
    let mut lines = insight_lines(insight, numbers);
    let ghost own = own_lines(*insight, *numbers);
    let entries = &insight.state_history;
    if entries.len() > 0 {
        lines.push(DetailLine { label: None, value: "State history".to_owned() });
        proof {
            assert(line_views(lines@) =~= own.push(plain("State history"@)));
        }
        let mut i: usize = 0;
        while i < entries.len()
            invariant
                i <= entries.len(),
                entries@ == insight.state_history@,
                can_be_shown(*insight),
                line_views(lines@).len() == own.len() + 1 + i,
                forall|k: int|
                    0 <= k < own.len() ==> #[trigger] line_views(lines@)[k] == own[k],
                line_views(lines@)[own.len() as int] == plain("State history"@),
                forall|k: int|
                    own.len() < k < line_views(lines@).len() ==> #[trigger] line_views(lines@)[k]
                        == history_line(entries@[k - own.len() - 1]),
            decreases entries.len() - i,
        {
            let ghost before = line_views(lines@);
            let line = history_entry(&entries[i]);
            let ghost v = line@;
            lines.push(line);
            proof {
                assert(line_views(lines@) =~= before.push(v));
            }
            i = i + 1;
        }
        proof {
            assert(line_views(lines@) =~= own + history_lines(entries@));
        }
    } else {
        proof {
            assert(own + history_lines(entries@) =~= own);
        }
    }
    lines
}

/// Each line of an insight holds what its label says; without an insight there is one line that
/// asks for one.
pub proof fn lines_hold_what_their_label_says(
    insight: RuntimeInsightSnapshot,
    numbers: ShownNumbers,
    r: Vec<DetailLine>,
)
    requires
        call_ensures(insight_detail_lines, (Some(&insight), &numbers), r),
    ensures
        r@.len() >= 16,
        r@[0]@.label == Some("ID"@) && r@[0]@.value == insight.insight_id@,
        r@[1]@.label == Some("Symbol"@) && r@[1]@.value == insight.symbol@,
        r@[2]@.label == Some("State"@) && r@[2]@.value == insight.state@,
        r@[3]@.label == Some("Side"@) && r@[3]@.value == insight.side@,
        r@[4]@.label == Some("Strategy"@) && r@[4]@.value == insight.strategy_type@,
        r@[5]@.label == Some("Order"@) && r@[5]@.value == or_dash(option_view(insight.order_id)),
        r@[6]@.label == Some("Close order"@) && r@[6]@.value == or_dash(
            option_view(insight.close_order_id),
        ),
        r@[7]@.label == Some("Qty"@) && r@[7]@.value == or_dash(option_view(numbers.quantity)),
        r@[8]@.label == Some("Contracts"@) && r@[8]@.value == or_dash(
            option_view(numbers.contracts),
        ),
        r@[9]@.label == Some("Type"@) && r@[9]@.value == insight.order_type@ + " / "@
            + insight.order_class@,
        r@[10]@.label == Some("Limit/Stop"@) && r@[10]@.value == or_dash(
            option_view(numbers.limit_price),
        ) + " / "@ + or_dash(option_view(numbers.stop_price)),
        r@[11]@.label == Some("TP"@) && r@[11]@.value == shown_levels(
            numbers.take_profit_levels@,
        ),
        r@[12]@.label == Some("SL"@) && r@[12]@.value == shown_levels(numbers.stop_loss_levels@),
        r@[13]@.label == Some("Filled/Close"@) && r@[13]@.value == or_dash(
            option_view(numbers.filled_price),
        ) + " / "@ + or_dash(option_view(numbers.close_price)),
        r@[14]@.label == Some("Confidence"@) && r@[14]@.value == decimal(
            insight.confidence as nat,
        ),
        r@[15]@.label == Some("Updated"@) && r@[15]@.value == shown_time(insight.updated_at),
        insight.state_history@.len() == 0 ==> r@.len() == 16,
        insight.state_history@.len() > 0 ==> r@.len() == 17 + insight.state_history@.len()
            && r@[16]@.label is None && r@[16]@.value == "State history"@,
        forall|k: int|
            0 <= k < insight.state_history@.len() ==> {
                let entry = #[trigger] insight.state_history@[k];
                let line = r@[17 + k]@;
                &&& line.label == Some(clock(entry.at))
                &&& entry.message is Some && entry.message->Some_0@.len() > 0 ==> line.value
                    == entry.state@ + " "@ + entry.message->Some_0@
                &&& entry.message is None || entry.message->Some_0@.len() == 0 ==> line.value
                    == entry.state@ + " "@ + "-"@
            },
{
    let lines = own_lines(insight, numbers) + history_lines(insight.state_history@);
    assert(line_views(r@) == lines);
    assert(own_lines(insight, numbers).len() == 16);
    assert(r@.len() == lines.len());
    assert forall|k: int| 0 <= k < r@.len() implies (#[trigger] r@[k])@ == lines[k] by {
        assert(line_views(r@)[k] == r@[k]@);
    }
    assert forall|k: int| 0 <= k < insight.state_history@.len() implies r@[17 + k]@
        == history_line(#[trigger] insight.state_history@[k]) by {
        assert(lines[17 + k] == history_lines(insight.state_history@)[1 + k]);
    }
}

/// Levels are shown behind one another with commas between them, and as a dash where there are
/// none; so is a time that is missing.
pub proof fn levels_are_shown_with_commas(items: Seq<String>, item: String)
    ensures
        shown_levels(Seq::empty()) == seq!['-'],
        shown_levels(seq![item]) == item@,
        items.len() > 0 ==> shown_levels(items.push(item)) == shown_levels(items) + seq![',', ' ']
            + item@,
        shown_time(None) == seq!['-'],
{
    reveal_strlit("-");
    reveal_strlit(", ");
    assert("-"@ =~= seq!['-']);
    assert(", "@ =~= seq![',', ' ']);
    assert(items.push(item).drop_last() =~= items);
}

} // verus!
