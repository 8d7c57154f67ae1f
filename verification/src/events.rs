//! The streams of market data that a strategy listens to.
use vstd::prelude::*;
use vstd::string::StringExecFns;

use crate::text::{decimal, decimal_text, listed, text_eq};
use crate::time::UtcTime;
use crate::timeframe::{same_frame, TimeFrame, TimeFrameUnit};
use crate::universe::{insert_symbol, strictly_sorted};

verus! {

/// What a stream delivers.
#[derive(Clone, Copy, Debug, PartialEq, Eq, Structural, Hash)]
pub enum EventStreamType {
    Bar,
}

/// How a stream is used.
#[derive(Clone, Copy, Debug, PartialEq, Eq, Structural, Hash)]
pub struct EventStreamOptions {
    /// Whether the strategy may trade on its events.
    pub allow_trading: bool,
}

/// A stream that a strategy asks for, in its own time frame where none is given.
#[derive(Clone, Copy, Debug)]
pub struct EventStreamRequest {
    pub event_type: EventStreamType,
    pub timeframe: Option<TimeFrame>,
    pub options: EventStreamOptions,
}

impl EventStreamRequest {
    /// A stream that is only looked at, not traded on.
    pub fn new(event_type: EventStreamType, timeframe: Option<TimeFrame>) -> (r: EventStreamRequest)
        ensures
            r == (EventStreamRequest {
                event_type,
                timeframe,
                options: EventStreamOptions { allow_trading: false },
            }),
    {
        EventStreamRequest {
            event_type,
            timeframe,
            options: EventStreamOptions { allow_trading: false },
        }
    }
}

/// What a stream is told apart by.
#[derive(Clone, Debug)]
pub struct MarketStreamKey {
    pub event_type: EventStreamType,
    pub symbol: String,
    pub timeframe: TimeFrame,
}

/// A stream that a strategy listens to.
#[derive(Clone, Debug)]
pub struct ResolvedEventStream {
    pub key: MarketStreamKey,
    pub history_key: String,
    /// Whether the stream has another time frame than the strategy.
    pub is_feature: bool,
    pub allow_trading: bool,
}

/// The model of a stream.
#[verifier::ext_equal]
pub struct StreamView {
    pub event_type: EventStreamType,
    pub symbol: Seq<char>,
    pub timeframe: TimeFrame,
    pub history_key: Seq<char>,
    pub is_feature: bool,
    pub allow_trading: bool,
}

impl View for ResolvedEventStream {
    type V = StreamView;

    open spec fn view(&self) -> StreamView {
        StreamView {
            event_type: self.key.event_type,
            symbol: self.key.symbol@,
            timeframe: self.key.timeframe,
            history_key: self.history_key@,
            is_feature: self.is_feature,
            allow_trading: self.allow_trading,
        }
    }
}

/// The letters that a unit of time is told by.
pub open spec fn unit_letters(unit: TimeFrameUnit) -> Seq<char> {
    match unit {
        TimeFrameUnit::Second => "s"@,
        TimeFrameUnit::Minute => "m"@,
        TimeFrameUnit::Hour => "h"@,
        TimeFrameUnit::Day => "d"@,
        TimeFrameUnit::Month => "mo"@,
    }
}

/// The name of the history of a symbol: the symbol itself in the strategy's own time frame, and
/// with the time frame behind it in another, as in `AAPL:15m`.
pub open spec fn history_name(symbol: Seq<char>, timeframe: TimeFrame, base: TimeFrame) -> Seq<
    char,
> {
    if timeframe == base {
        symbol
    } else {
        symbol + ":"@ + decimal(timeframe.spec_amount() as nat) + unit_letters(
            timeframe.spec_unit(),
        )
    }
}

/// The name of the history of a symbol.
pub fn history_key(symbol: &str, timeframe: TimeFrame, base: TimeFrame) -> (r: String)
    ensures
        r@ == history_name(symbol@, timeframe, base),
{
    let mut key = symbol.to_owned();
    if !same_frame(timeframe, base) {
        key.append(":");
        key.append(decimal_text(timeframe.get_amount() as u64).as_str());
        key.append(
            match timeframe.get_unit() {
                TimeFrameUnit::Second => "s",
                TimeFrameUnit::Minute => "m",
                TimeFrameUnit::Hour => "h",
                TimeFrameUnit::Day => "d",
                TimeFrameUnit::Month => "mo",
            },
        );
    }
    key
}

impl StreamView {
    /// The stream of a symbol in a time frame, for a strategy with the time frame `base`.
    pub open spec fn of(
        event_type: EventStreamType,
        symbol: Seq<char>,
        timeframe: TimeFrame,
        base: TimeFrame,
        allow_trading: bool,
    ) -> StreamView {
        StreamView {
            event_type,
            symbol,
            timeframe,
            history_key: history_name(symbol, timeframe, base),
            is_feature: timeframe != base,
            allow_trading,
        }
    }

    /// Whether two streams deliver the same.
    pub open spec fn same_key(self, other: StreamView) -> bool {
        self.event_type == other.event_type && self.symbol == other.symbol && self.timeframe
            == other.timeframe
    }
}

impl ResolvedEventStream {
    /// The stream of a symbol in a time frame, for a strategy with the time frame `base`.
    pub fn new(
        event_type: EventStreamType,
        symbol: &str,
        timeframe: TimeFrame,
        base: TimeFrame,
        allow_trading: bool,
    ) -> (r: ResolvedEventStream)
        ensures
            r@ == StreamView::of(event_type, symbol@, timeframe, base, allow_trading),
    {
        ResolvedEventStream {
            key: MarketStreamKey { event_type, symbol: symbol.to_owned(), timeframe },
            history_key: history_key(symbol, timeframe, base),
            is_feature: !same_frame(timeframe, base),
            allow_trading,
        }
    }

    /// What a strategy is told of an event of the stream.
    pub fn context_at(&self, timestamp: UtcTime) -> (r: StrategyEventContext)
        ensures
            r.event_type == self@.event_type,
            r.symbol@ == self@.symbol,
            r.timeframe == self@.timeframe,
            r.history_key@ == self@.history_key,
            r.is_feature == self@.is_feature,
            r.allow_trading == self@.allow_trading,
            r.timestamp == timestamp,
    {
        StrategyEventContext {
            event_type: self.key.event_type,
            symbol: self.key.symbol.clone(),
            timeframe: self.key.timeframe,
            history_key: self.history_key.clone(),
            is_feature: self.is_feature,
            allow_trading: self.allow_trading,
            timestamp,
        }
    }
}

impl StrategyEventContext {
    /// Whether the broker of a live run acts on the bar of an event before the strategy sees it:
    /// only on bars in the strategy's own time frame that may be traded on.
    pub fn moves_broker(&self) -> (r: bool)
        ensures
            r == (self.allow_trading && !self.is_feature),
    {
        self.allow_trading && !self.is_feature
    }
}

/// What a strategy is told of an event.
#[derive(Clone, Debug)]
pub struct StrategyEventContext {
    pub event_type: EventStreamType,
    pub symbol: String,
    pub timeframe: TimeFrame,
    pub history_key: String,
    pub is_feature: bool,
    pub allow_trading: bool,
    pub timestamp: UtcTime,
}

/// The models of streams.
pub open spec fn stream_views(streams: Seq<ResolvedEventStream>) -> Seq<StreamView> {
    streams.map_values(|s: ResolvedEventStream| s@)
}

/// Whether one of the streams delivers the same as `s`.
pub open spec fn has_stream(streams: Seq<StreamView>, s: StreamView) -> bool {
    exists|i: int| 0 <= i < streams.len() && (#[trigger] streams[i]).same_key(s)
}

/// The streams with `s`, unless one of them delivers the same.
pub open spec fn with_stream(streams: Seq<StreamView>, s: StreamView) -> Seq<StreamView> {
    if has_stream(streams, s) {
        streams
    } else {
        streams.push(s)
    }
}

/// The stream that a request asks for: one in the strategy's own time frame is traded on, one in
/// another where the request says so.
pub open spec fn requested(symbol: Seq<char>, base: TimeFrame, request: EventStreamRequest) ->
    StreamView {
    let timeframe = match request.timeframe {
        Some(timeframe) => timeframe,
        None => base,
    };
    StreamView::of(
        request.event_type,
        symbol,
        timeframe,
        base,
        timeframe == base || request.options.allow_trading,
    )
}

/// The streams of a symbol: the bars in the strategy's own time frame, and what was asked for.
pub open spec fn symbol_streams(
    streams: Seq<StreamView>,
    symbol: Seq<char>,
    base: TimeFrame,
    requests: Seq<EventStreamRequest>,
) -> Seq<StreamView>
    decreases requests.len(),
{
    if requests.len() == 0 {
        with_stream(streams, StreamView::of(EventStreamType::Bar, symbol, base, base, true))
    } else {
        with_stream(
            symbol_streams(streams, symbol, base, requests.drop_last()),
            requested(symbol, base, requests.last()),
        )
    }
}

/// The streams of all symbols.
pub open spec fn all_streams(
    symbols: Seq<String>,
    base: TimeFrame,
    requests: Seq<EventStreamRequest>,
) -> Seq<StreamView>
    decreases symbols.len(),
{
    if symbols.len() == 0 {
        Seq::empty()
    } else {
        symbol_streams(
            all_streams(symbols.drop_last(), base, requests),
            symbols.last()@,
            base,
            requests,
        )
    }
}

fn add_stream(streams: &mut Vec<ResolvedEventStream>, stream: ResolvedEventStream)
    ensures
        stream_views(final(streams)@) == with_stream(stream_views(old(streams)@), stream@),
{
    let ghost before = stream_views(streams@);
    let ghost v = stream@;
    let mut i: usize = 0;
    while i < streams.len()
        invariant
            i <= streams.len(),
            *streams == *old(streams),
            before == stream_views(streams@),
            v == stream@,
            forall|k: int| 0 <= k < i ==> !(#[trigger] before[k]).same_key(v),
        decreases streams.len() - i,
    {
        let key = &streams[i].key;
        proof {
            assert(before[i as int] == streams@[i as int]@);
        }
        if key.event_type == stream.key.event_type && text_eq(
            key.symbol.as_str(),
            stream.key.symbol.as_str(),
        ) && same_frame(key.timeframe, stream.key.timeframe) {
            proof {
                assert(before[i as int].same_key(v));
            }
            return;
        }
        i = i + 1;
    }
    streams.push(stream);
    proof {
        assert(stream_views(streams@) =~= before.push(v));
    }
}

fn add_symbol_streams(
    streams: &mut Vec<ResolvedEventStream>,
    symbol: &str,
    base: TimeFrame,
    requests: &Vec<EventStreamRequest>,
)
    ensures
        stream_views(final(streams)@) == symbol_streams(
            stream_views(old(streams)@),
            symbol@,
            base,
            requests@,
        ),
{
    add_stream(
        streams,
        ResolvedEventStream::new(EventStreamType::Bar, symbol, base, base, true),
    );
    let mut i: usize = 0;
    while i < requests.len()
        invariant
            i <= requests.len(),
            stream_views(streams@) == symbol_streams(
                stream_views(old(streams)@),
                symbol@,
                base,
                requests@.take(i as int),
            ),
        decreases requests.len() - i,
    {
        proof {
            assert(requests@.take(i + 1).drop_last() =~= requests@.take(i as int));
        }
        let request = requests[i];
        let timeframe = match request.timeframe {
            Some(timeframe) => timeframe,
            None => base,
        };
        let allow_trading = same_frame(timeframe, base) || request.options.allow_trading;
        add_stream(
            streams,
            ResolvedEventStream::new(request.event_type, symbol, timeframe, base, allow_trading),
        );
        i = i + 1;
    }
    proof {
        assert(requests@.take(i as int) =~= requests@);
    }
}

/// The streams of a symbol.
pub fn event_streams_for_symbol(
    symbol: &str,
    base: TimeFrame,
    requests: &Vec<EventStreamRequest>,
) -> (r: Vec<ResolvedEventStream>)
    ensures
        stream_views(r@) == symbol_streams(Seq::empty(), symbol@, base, requests@),
{
    let mut streams: Vec<ResolvedEventStream> = Vec::new();
    proof {
        assert(stream_views(streams@) =~= Seq::<StreamView>::empty());
    }
    add_symbol_streams(&mut streams, symbol, base, requests);
    streams
}

/// The symbols in order, each once.
pub fn sorted_symbols(symbols: &Vec<String>) -> (r: Vec<String>)
    ensures
        strictly_sorted(r@),
        forall|s: Seq<char>| #[trigger] listed(r@, s) <==> listed(symbols@, s),
{
    let mut sorted: Vec<String> = Vec::new();
    let mut i: usize = 0;
    while i < symbols.len()
        invariant
            i <= symbols.len(),
            strictly_sorted(sorted@),
            forall|s: Seq<char>| #[trigger]
                listed(sorted@, s) <==> listed(symbols@.take(i as int), s),
        decreases symbols.len() - i,
    {
        let ghost before = sorted@;
        insert_symbol(&mut sorted, symbols[i].as_str());
        i = i + 1;
        proof {
            assert forall|s: Seq<char>| #[trigger]
                listed(sorted@, s) <==> listed(symbols@.take(i as int), s) by {
                assert(listed(sorted@, s) <==> listed(before, s) || s == symbols@[i - 1]@);
                listed_grown(symbols@, i as int, s);
            }
        }
    }
    proof {
        assert(symbols@.take(i as int) =~= symbols@);
    }
    sorted
}

/// What is listed among the first texts is what is listed before the last of them, and that one.
pub proof fn listed_grown(items: Seq<String>, n: int, s: Seq<char>)
    requires
        0 < n <= items.len(),
    ensures
        listed(items.take(n), s) <==> listed(items.take(n - 1), s) || s == items[n - 1]@,
{
    let shorter = items.take(n - 1);
    let all = items.take(n);
    if listed(shorter, s) {
        let i = choose|i: int| 0 <= i < shorter.len() && (#[trigger] shorter[i])@ == s;
        assert(all[i]@ == s);
    }
    if s == items[n - 1]@ {
        assert(all[n - 1]@ == s);
    }
    if listed(all, s) {
        let i = choose|i: int| 0 <= i < all.len() && (#[trigger] all[i])@ == s;
        if i < n - 1 {
            assert(shorter[i]@ == s);
        }
    }
}

/// The streams that a strategy listens to, symbol by symbol in their order.
pub fn resolve_event_streams(
    symbols: &Vec<String>,
    base: TimeFrame,
    requests: &Vec<EventStreamRequest>,
) -> (r: Vec<ResolvedEventStream>)
    ensures
        stream_views(r@) == all_streams(symbols@, base, requests@),
{
    let mut streams: Vec<ResolvedEventStream> = Vec::new();
    proof {
        assert(stream_views(streams@) =~= Seq::<StreamView>::empty());
    }
    let mut i: usize = 0;
    while i < symbols.len()
        invariant
            i <= symbols.len(),
            stream_views(streams@) == all_streams(symbols@.take(i as int), base, requests@),
        decreases symbols.len() - i,
    {
        proof {
            assert(symbols@.take(i + 1).drop_last() =~= symbols@.take(i as int));
        }
        add_symbol_streams(&mut streams, symbols[i].as_str(), base, requests);
        i = i + 1;
    }
    proof {
        assert(symbols@.take(i as int) =~= symbols@);
    }
    streams
}

/// Whether no two streams deliver the same.
pub open spec fn distinct_streams(streams: Seq<StreamView>) -> bool {
    forall|i: int, j: int|
        0 <= i < j < streams.len() ==> !(#[trigger] streams[i]).same_key(#[trigger] streams[j])
}

proof fn symbol_streams_are_distinct(
    streams: Seq<StreamView>,
    symbol: Seq<char>,
    base: TimeFrame,
    requests: Seq<EventStreamRequest>,
)
    requires
        distinct_streams(streams),
    ensures
        distinct_streams(symbol_streams(streams, symbol, base, requests)),
    decreases requests.len(),
{
    if requests.len() > 0 {
        symbol_streams_are_distinct(streams, symbol, base, requests.drop_last());
    }
}

/// No stream is listened to twice, whatever was asked for.
pub proof fn streams_are_distinct(
    symbols: Seq<String>,
    base: TimeFrame,
    requests: Seq<EventStreamRequest>,
)
    ensures
        distinct_streams(all_streams(symbols, base, requests)),
    decreases symbols.len(),
{
    if symbols.len() > 0 {
        streams_are_distinct(symbols.drop_last(), base, requests);
        symbol_streams_are_distinct(
            all_streams(symbols.drop_last(), base, requests),
            symbols.last()@,
            base,
            requests,
        );
    }
}

/// Whether a stream in the strategy's own time frame is traded on and no feature, and has the
/// symbol itself as the name of its history, and whether one in another time frame is a feature.
pub open spec fn sound_stream(s: StreamView, base: TimeFrame) -> bool {
    &&& s.is_feature == (s.timeframe != base)
    &&& s.timeframe == base ==> s.allow_trading && s.history_key == s.symbol
}

proof fn symbol_streams_are_sound(
    streams: Seq<StreamView>,
    symbol: Seq<char>,
    base: TimeFrame,
    requests: Seq<EventStreamRequest>,
)
    requires
        forall|i: int| 0 <= i < streams.len() ==> sound_stream(#[trigger] streams[i], base),
    ensures
        forall|i: int|
            0 <= i < symbol_streams(streams, symbol, base, requests).len() ==> sound_stream(
                #[trigger] symbol_streams(streams, symbol, base, requests)[i],
                base,
            ),
    decreases requests.len(),
{
    let all = symbol_streams(streams, symbol, base, requests);
    if requests.len() > 0 {
        let before = symbol_streams(streams, symbol, base, requests.drop_last());
        symbol_streams_are_sound(streams, symbol, base, requests.drop_last());
        assert forall|i: int| 0 <= i < all.len() implies sound_stream(#[trigger] all[i], base) by {
            if i < before.len() {
                assert(all[i] == before[i]);
            }
        }
    } else {
        assert forall|i: int| 0 <= i < all.len() implies sound_stream(#[trigger] all[i], base) by {
            if i < streams.len() {
                assert(all[i] == streams[i]);
            }
        }
    }
}

/// A strategy trades on the streams in its own time frame; a stream in another is a feature.
pub proof fn own_time_frame_is_traded(
    symbols: Seq<String>,
    base: TimeFrame,
    requests: Seq<EventStreamRequest>,
)
    ensures
        forall|i: int|
            0 <= i < all_streams(symbols, base, requests).len() ==> sound_stream(
                #[trigger] all_streams(symbols, base, requests)[i],
                base,
            ),
    decreases symbols.len(),
{
    if symbols.len() > 0 {
        own_time_frame_is_traded(symbols.drop_last(), base, requests);
        symbol_streams_are_sound(
            all_streams(symbols.drop_last(), base, requests),
            symbols.last()@,
            base,
            requests,
        );
    }
}

/// The time frames of streams, each once, in the order in which they come up.
pub open spec fn frames_of(streams: Seq<StreamView>) -> Seq<TimeFrame>
    decreases streams.len(),
{
    if streams.len() == 0 {
        Seq::empty()
    } else {
        let before = frames_of(streams.drop_last());
        if before.contains(streams.last().timeframe) {
            before
        } else {
            before.push(streams.last().timeframe)
        }
    }
}

/// The time frames of streams, each once: each is subscribed to by itself.
pub fn time_frames(streams: &Vec<ResolvedEventStream>) -> (r: Vec<TimeFrame>)
    ensures
        r@ == frames_of(stream_views(streams@)),
{
    let mut frames: Vec<TimeFrame> = Vec::new();
    let mut i: usize = 0;
    while i < streams.len()
        invariant
            i <= streams.len(),
            frames@ == frames_of(stream_views(streams@).take(i as int)),
        decreases streams.len() - i,
    {
        let ghost views = stream_views(streams@);
        proof {
            assert(views.take(i + 1).drop_last() =~= views.take(i as int));
            assert(views[i as int] == streams@[i as int]@);
        }
        let frame = streams[i].key.timeframe;
        let mut known = false;
        let mut k: usize = 0;
        while k < frames.len()
            invariant
                k <= frames.len(),
                known == exists|m: int| 0 <= m < k && #[trigger] frames@[m] == frame,
            decreases frames.len() - k,
        {
            if same_frame(frames[k], frame) {
                known = true;
            }
            k = k + 1;
        }
        proof {
            assert(known == frames@.contains(frame));
        }
        if !known {
            frames.push(frame);
        }
        i = i + 1;
    }
    proof {
        assert(stream_views(streams@).take(i as int) =~= stream_views(streams@));
    }
    frames
}

/// The symbols of the streams in a time frame, in order.
pub open spec fn symbols_in(streams: Seq<StreamView>, frame: TimeFrame) -> Seq<Seq<char>>
    decreases streams.len(),
{
    if streams.len() == 0 {
        Seq::empty()
    } else {
        let before = symbols_in(streams.drop_last(), frame);
        if streams.last().timeframe == frame {
            before.push(streams.last().symbol)
        } else {
            before
        }
    }
}

/// The symbols that are subscribed to in a time frame.
pub fn symbols_of(streams: &Vec<ResolvedEventStream>, frame: TimeFrame) -> (r: Vec<String>)
    ensures
        r@.map_values(|s: String| s@) == symbols_in(stream_views(streams@), frame),
{
    let mut out: Vec<String> = Vec::new();
    let mut i: usize = 0;
    proof {
        assert(out@.map_values(|s: String| s@) =~= Seq::<Seq<char>>::empty());
    }
    while i < streams.len()
        invariant
            i <= streams.len(),
            out@.map_values(|s: String| s@) == symbols_in(
                stream_views(streams@).take(i as int),
                frame,
            ),
        decreases streams.len() - i,
    {
        let ghost views = stream_views(streams@);
        proof {
            assert(views.take(i + 1).drop_last() =~= views.take(i as int));
            assert(views[i as int] == streams@[i as int]@);
        }
        if same_frame(streams[i].key.timeframe, frame) {
            let ghost before = out@.map_values(|s: String| s@);
            out.push(streams[i].key.symbol.clone());
            proof {
                assert(out@.map_values(|s: String| s@) =~= before.push(views[i as int].symbol));
            }
        }
        i = i + 1;
    }
    proof {
        assert(stream_views(streams@).take(i as int) =~= stream_views(streams@));
    }
    out
}

/// The place of the last stream of a symbol in a time frame.
pub open spec fn last_stream(streams: Seq<StreamView>, frame: TimeFrame, symbol: Seq<char>) ->
    Option<int>
    decreases streams.len(),
{
    if streams.len() == 0 {
        None
    } else if streams.last().timeframe == frame && streams.last().symbol == symbol {
        Some(streams.len() - 1)
    } else {
        last_stream(streams.drop_last(), frame, symbol)
    }
}

/// The place of the stream that a bar of a symbol in a time frame belongs to; a bar of another
/// symbol belongs to none.
pub fn stream_of_bar(streams: &Vec<ResolvedEventStream>, frame: TimeFrame, symbol: &str) -> (r:
    Option<usize>)
    ensures
        match r {
            Some(at) => last_stream(stream_views(streams@), frame, symbol@) == Some(at as int) && at
                < streams@.len(),
            None => last_stream(stream_views(streams@), frame, symbol@) is None,
        },
{
    let mut i: usize = streams.len();
    let ghost views = stream_views(streams@);
    proof {
        assert(views.take(i as int) =~= views);
    }
    while i > 0
        invariant
            i <= streams.len(),
            views == stream_views(streams@),
            last_stream(views, frame, symbol@) == last_stream(
                views.take(i as int),
                frame,
                symbol@,
            ),
        decreases i,
    {
        proof {
            assert(views.take(i as int).drop_last() =~= views.take(i - 1));
            assert(views[i - 1] == streams@[i - 1]@);
        }
        i = i - 1;
        if same_frame(streams[i].key.timeframe, frame) && text_eq(
            streams[i].key.symbol.as_str(),
            symbol,
        ) {
            return Some(i);
        }
    }
    None
}

/// A stream of the strategy's own time frame has the symbol as the name of its history; any other has
/// the symbol with the amount and the unit of the time frame: s, m, h, d or mo.
pub proof fn histories_are_named_by_symbol_and_frame(
    symbol: Seq<char>,
    frame: TimeFrame,
    base: TimeFrame,
)
    ensures
        frame == base ==> history_name(symbol, frame, base) == symbol,
        frame != base ==> {
            let unit = frame.spec_unit();
            let stem = symbol + ":"@ + decimal(frame.spec_amount() as nat);
            &&& unit is Second ==> history_name(symbol, frame, base) == stem + "s"@
            &&& unit is Minute ==> history_name(symbol, frame, base) == stem + "m"@
            &&& unit is Hour ==> history_name(symbol, frame, base) == stem + "h"@
            &&& unit is Day ==> history_name(symbol, frame, base) == stem + "d"@
            &&& unit is Month ==> history_name(symbol, frame, base) == stem + "mo"@
        },
{
}

/// A stream that is asked for has the time frame that was asked for, or else that of the strategy; it
/// is a feature where that is another one. In the strategy's own time frame it is traded on, and else
/// only where that was asked for and allowed.
pub proof fn streams_are_as_asked_for(
    symbol: Seq<char>,
    base: TimeFrame,
    request: EventStreamRequest,
)
    ensures
        ({
            let stream = requested(symbol, base, request);
            &&& stream.symbol == symbol
            &&& stream.event_type == request.event_type
            &&& request.timeframe matches Some(frame) ==> stream.timeframe == frame
            &&& request.timeframe is None ==> stream.timeframe == base
            &&& stream.is_feature <==> stream.timeframe != base
            &&& stream.allow_trading <==> stream.timeframe == base || request.options.allow_trading
        }),
{
}

proof fn streams_stay(streams: Seq<StreamView>, s: StreamView, x: StreamView)
    ensures
        has_stream(streams, x) ==> has_stream(with_stream(streams, s), x),
        has_stream(with_stream(streams, s), s),
{
    let all = with_stream(streams, s);
    if has_stream(streams, x) {
        let i = choose|i: int| 0 <= i < streams.len() && (#[trigger] streams[i]).same_key(x);
        assert(all[i].same_key(x));
    }
    if !has_stream(streams, s) {
        assert(all[streams.len() as int].same_key(s));
    }
}

proof fn symbol_has_its_streams(
    streams: Seq<StreamView>,
    symbol: Seq<char>,
    base: TimeFrame,
    requests: Seq<EventStreamRequest>,
    k: int,
    x: StreamView,
)
    ensures
        has_stream(streams, x) ==> has_stream(symbol_streams(streams, symbol, base, requests), x),
        has_stream(
            symbol_streams(streams, symbol, base, requests),
            StreamView::of(EventStreamType::Bar, symbol, base, base, true),
        ),
        0 <= k < requests.len() ==> has_stream(
            symbol_streams(streams, symbol, base, requests),
            requested(symbol, base, requests[k]),
        ),
    decreases requests.len(),
{
    let own = StreamView::of(EventStreamType::Bar, symbol, base, base, true);
    if requests.len() == 0 {
        streams_stay(streams, own, x);
    } else {
        let rest = symbol_streams(streams, symbol, base, requests.drop_last());
        symbol_has_its_streams(streams, symbol, base, requests.drop_last(), k, x);
        let last = requested(symbol, base, requests.last());
        streams_stay(rest, last, x);
        streams_stay(rest, last, own);
        if 0 <= k < requests.len() - 1 {
            streams_stay(rest, last, requested(symbol, base, requests[k]));
        }
    }
}

/// Every symbol has a stream of the strategy's own bars, and one for each request.
pub proof fn every_symbol_has_its_streams(
    symbols: Seq<String>,
    base: TimeFrame,
    requests: Seq<EventStreamRequest>,
    i: int,
    k: int,
)
    requires
        0 <= i < symbols.len(),
    ensures
        has_stream(
            all_streams(symbols, base, requests),
            StreamView::of(EventStreamType::Bar, symbols[i]@, base, base, true),
        ),
        0 <= k < requests.len() ==> has_stream(
            all_streams(symbols, base, requests),
            requested(symbols[i]@, base, requests[k]),
        ),
    decreases symbols.len(),
{
    let own = StreamView::of(EventStreamType::Bar, symbols[i]@, base, base, true);
    let rest = all_streams(symbols.drop_last(), base, requests);
    if i < symbols.len() - 1 {
        every_symbol_has_its_streams(symbols.drop_last(), base, requests, i, k);
        symbol_has_its_streams(rest, symbols.last()@, base, requests, k, own);
        if 0 <= k < requests.len() {
            symbol_has_its_streams(
                rest,
                symbols.last()@,
                base,
                requests,
                k,
                requested(symbols[i]@, base, requests[k]),
            );
        }
    } else {
        symbol_has_its_streams(rest, symbols.last()@, base, requests, k, own);
    }
}

/// A bar belongs to the stream of its symbol and time frame, where there is one.
pub proof fn bars_belong_to_their_stream(
    streams: Seq<StreamView>,
    frame: TimeFrame,
    symbol: Seq<char>,
)
    ensures
        last_stream(streams, frame, symbol) matches Some(i) ==> 0 <= i < streams.len()
            && streams[i].timeframe == frame && streams[i].symbol == symbol,
        last_stream(streams, frame, symbol) is None ==> forall|i: int|
            0 <= i < streams.len() ==> !((#[trigger] streams[i]).timeframe == frame
                && streams[i].symbol == symbol),
    decreases streams.len(),
{
    if streams.len() > 0 {
        bars_belong_to_their_stream(streams.drop_last(), frame, symbol);
        if last_stream(streams, frame, symbol) is None {
            assert forall|i: int| 0 <= i < streams.len() implies !((
            #[trigger] streams[i]).timeframe == frame && streams[i].symbol == symbol) by {
                if i < streams.len() - 1 {
                    assert(streams.drop_last()[i] == streams[i]);
                }
            }
        }
    }
}

/// A bar moves the broker exactly where it may be traded on and is of the strategy's own time frame.
pub proof fn traded_bars_move_the_broker(context: &StrategyEventContext, r: bool)
    requires
        call_ensures(StrategyEventContext::moves_broker, (context,), r),
    ensures
        r <==> context.allow_trading && !context.is_feature,
{
}

/// The time frames of streams are told each once.
pub proof fn time_frames_are_told_once(streams: Seq<StreamView>, frame: TimeFrame)
    ensures
        frames_of(streams).contains(frame) <==> exists|i: int|
            0 <= i < streams.len() && (#[trigger] streams[i]).timeframe == frame,
        frames_of(streams).no_duplicates(),
    decreases streams.len(),
{
    if streams.len() > 0 {
        let rest = streams.drop_last();
        let last = streams.last();
        time_frames_are_told_once(rest, frame);
        let before = frames_of(rest);
        let all = frames_of(streams);
        assert(streams[streams.len() - 1] == last);
        if before.contains(frame) {
            let i = choose|i: int|
                0 <= i < rest.len() && (#[trigger] rest[i]).timeframe == frame;
            assert(streams[i].timeframe == frame);
            let k = choose|k: int| 0 <= k < before.len() && before[k] == frame;
            assert(all[k] == frame);
        }
        if exists|i: int| 0 <= i < streams.len() && (#[trigger] streams[i]).timeframe == frame {
            let i = choose|i: int|
                0 <= i < streams.len() && (#[trigger] streams[i]).timeframe == frame;
            if i < rest.len() {
                assert(rest[i].timeframe == frame);
            } else if !before.contains(last.timeframe) {
                assert(all[before.len() as int] == frame);
            }
        }
        if all.contains(frame) && !before.contains(frame) {
            let k = choose|k: int| 0 <= k < all.len() && all[k] == frame;
            assert(k == before.len() && frame == last.timeframe);
        }
        if !before.contains(last.timeframe) {
            assert forall|a: int, b: int| 0 <= a < all.len() && 0 <= b < all.len() && a
                != b implies all[a] != all[b] by {
                if a == before.len() {
                    assert(before.contains(before[b]));
                } else if b == before.len() {
                    assert(before.contains(before[a]));
                }
            }
        }
    }
}

/// The symbols of a time frame are those of its streams, in their order.
pub proof fn symbols_are_those_of_the_frame(
    streams: Seq<StreamView>,
    stream: StreamView,
    frame: TimeFrame,
)
    ensures
        symbols_in(Seq::empty(), frame).len() == 0,
        stream.timeframe == frame ==> symbols_in(streams.push(stream), frame) == symbols_in(
            streams,
            frame,
        ).push(stream.symbol),
        stream.timeframe != frame ==> symbols_in(streams.push(stream), frame) == symbols_in(
            streams,
            frame,
        ),
{
    assert(streams.push(stream).drop_last() =~= streams);
}

/// A symbol's own bars can be traded on; every stream that was asked for is there as well.
pub proof fn own_bars_come_first(
    symbol: Seq<char>,
    base: TimeFrame,
    requests: Seq<EventStreamRequest>,
    k: int,
)
    ensures
        has_stream(
            symbol_streams(Seq::empty(), symbol, base, requests),
            StreamView::of(EventStreamType::Bar, symbol, base, base, true),
        ),
        symbol_streams(Seq::empty(), symbol, base, Seq::empty()).len() == 1,
        0 <= k < requests.len() ==> has_stream(
            symbol_streams(Seq::empty(), symbol, base, requests),
            requested(symbol, base, requests[k]),
        ),
{
    let own = StreamView::of(EventStreamType::Bar, symbol, base, base, true);
    symbol_has_its_streams(Seq::empty(), symbol, base, requests, k, own);
}

/// Two streams deliver the same where they are of one type, one symbol and one time frame; what is
/// delivered already is not asked for again, and anything else is put behind the others.
pub proof fn streams_are_put_behind_once(streams: Seq<StreamView>, s: StreamView, other: StreamView)
    ensures
        s.same_key(other) <==> s.event_type == other.event_type && s.symbol == other.symbol
            && s.timeframe == other.timeframe,
        (exists|i: int|
            0 <= i < streams.len() && (#[trigger] streams[i]).event_type == s.event_type
                && streams[i].symbol == s.symbol && streams[i].timeframe == s.timeframe)
            ==> with_stream(streams, s) == streams,
        (forall|i: int|
            0 <= i < streams.len() ==> (#[trigger] streams[i]).event_type != s.event_type
                || streams[i].symbol != s.symbol || streams[i].timeframe != s.timeframe)
            ==> with_stream(streams, s) == streams.push(s),
{
    if exists|i: int|
        0 <= i < streams.len() && (#[trigger] streams[i]).event_type == s.event_type
            && streams[i].symbol == s.symbol && streams[i].timeframe == s.timeframe {
        let i = choose|i: int|
            0 <= i < streams.len() && (#[trigger] streams[i]).event_type == s.event_type
                && streams[i].symbol == s.symbol && streams[i].timeframe == s.timeframe;
        assert(streams[i].same_key(s));
    }
}

} // verus!
