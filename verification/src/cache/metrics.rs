//! How well context caches do, computed from session event history.
use vstd::prelude::*;

verus! {

/// Token counts that a provider reports for one request.
#[derive(Debug, Clone, Copy, PartialEq, Eq, Structural)]
pub struct UsageMetadata {
    /// Tokens of the prompt.
    pub prompt_token_count: i32,
    /// Prompt tokens that a cache supplied.
    pub cache_read_input_token_count: Option<i32>,
    /// Prompt tokens that were written to a cache.
    pub cache_creation_input_token_count: Option<i32>,
}

/// One session event, as far as cache performance goes.
#[derive(Debug, Clone, Copy, PartialEq, Eq, Structural)]
pub struct Event {
    /// What the model's response says of its token usage.
    pub usage_metadata: Option<UsageMetadata>,
}

/// An exact quotient.
#[derive(Debug, Clone, Copy, PartialEq, Eq, Structural)]
pub struct Quotient {
    /// What is divided.
    pub numerator: i64,
    /// What it is divided by; never zero in a [`CacheMetrics`].
    pub denominator: i64,
}

/// Metrics computed from session event history.
///
/// The two ratios are quotients of which a hundredfold is the percentage.
/// When there are no events with usage metadata, all fields are zero.
#[derive(Debug, Clone, Copy, PartialEq, Eq, Structural)]
pub struct CacheMetrics {
    /// Total requests with usage metadata.
    pub total_requests: u32,
    /// Requests where `cache_read_input_token_count > 0`.
    pub requests_with_cache_hits: u32,
    /// Sum of all `prompt_token_count` values.
    pub total_prompt_tokens: i64,
    /// Sum of all `cache_read_input_token_count` values.
    pub total_cache_read_tokens: i64,
    /// Sum of all `cache_creation_input_token_count` values.
    pub total_cache_creation_tokens: i64,
    /// `total_cache_read_tokens / total_prompt_tokens`.
    pub cache_hit_ratio: Quotient,
    /// `requests_with_cache_hits / total_requests`.
    pub cache_utilization_ratio: Quotient,
    /// `total_cache_read_tokens / total_requests`.
    pub avg_cached_tokens_per_request: Quotient,
}

/// The usage that the events report, in order; events without it are skipped.
pub open spec fn usages(events: Seq<Event>) -> Seq<UsageMetadata>
    decreases events.len(),
{
    if events.len() == 0 {
        seq![]
    } else {
        match events.last().usage_metadata {
            Some(usage) => usages(events.drop_last()).push(usage),
            None => usages(events.drop_last()),
        }
    }
}

/// The sum of the numbers.
pub open spec fn sum(numbers: Seq<int>) -> int
    decreases numbers.len(),
{
    if numbers.len() == 0 {
        0
    } else {
        sum(numbers.drop_last()) + numbers.last()
    }
}

/// The number reported, or zero.
pub open spec fn or_zero(count: Option<i32>) -> int {
    match count {
        Some(number) => number as int,
        None => 0,
    }
}

/// Sum of the prompt tokens.
pub open spec fn prompt_tokens(reported: Seq<UsageMetadata>) -> int {
    sum(reported.map_values(|usage: UsageMetadata| usage.prompt_token_count as int))
}

/// Sum of the tokens that a cache supplied.
pub open spec fn cache_read_tokens(reported: Seq<UsageMetadata>) -> int {
    sum(reported.map_values(|usage: UsageMetadata| or_zero(usage.cache_read_input_token_count)))
}

/// Sum of the tokens written to a cache.
pub open spec fn cache_creation_tokens(reported: Seq<UsageMetadata>) -> int {
    sum(reported.map_values(|usage: UsageMetadata| or_zero(usage.cache_creation_input_token_count)))
}

/// The request was served from a cache, at least in part.
pub open spec fn is_hit() -> spec_fn(UsageMetadata) -> bool {
    |usage: UsageMetadata| or_zero(usage.cache_read_input_token_count) > 0
}

/// Number of requests served from a cache.
pub open spec fn cache_hits(reported: Seq<UsageMetadata>) -> int {
    reported.filter(is_hit()).len() as int
}

/// The quotient, or zero where there is nothing to divide by.
pub open spec fn is_quotient(quotient: Quotient, numerator: int, denominator: int) -> bool {
    if denominator > 0 {
        quotient.numerator == numerator && quotient.denominator == denominator
    } else {
        quotient.numerator == 0 && quotient.denominator == 1
    }
}

/// The metrics of the usage reported.
pub open spec fn measures(metrics: CacheMetrics, reported: Seq<UsageMetadata>) -> bool {
    &&& metrics.total_requests == reported.len()
    &&& metrics.requests_with_cache_hits == cache_hits(reported)
    &&& metrics.total_prompt_tokens == prompt_tokens(reported)
    &&& metrics.total_cache_read_tokens == cache_read_tokens(reported)
    &&& metrics.total_cache_creation_tokens == cache_creation_tokens(reported)
    &&& is_quotient(
        metrics.cache_hit_ratio,
        cache_read_tokens(reported),
        prompt_tokens(reported),
    )
    &&& is_quotient(
        metrics.cache_utilization_ratio,
        cache_hits(reported),
        reported.len() as int,
    )
    &&& is_quotient(
        metrics.avg_cached_tokens_per_request,
        cache_read_tokens(reported),
        reported.len() as int,
    )
}

/// One more report adds its own numbers.
proof fn lemma_one_more_usage(reported: Seq<UsageMetadata>, usage: UsageMetadata)
    ensures
        prompt_tokens(reported.push(usage)) == prompt_tokens(reported) + usage.prompt_token_count,
        cache_read_tokens(reported.push(usage)) == cache_read_tokens(reported) + or_zero(
            usage.cache_read_input_token_count,
        ),
        cache_creation_tokens(reported.push(usage)) == cache_creation_tokens(reported) + or_zero(
            usage.cache_creation_input_token_count,
        ),
        cache_hits(reported.push(usage)) == cache_hits(reported) + if or_zero(
            usage.cache_read_input_token_count,
        ) > 0 {
            1int
        } else {
            0
        },
{
    let more = reported.push(usage);
    let prompt = |usage: UsageMetadata| usage.prompt_token_count as int;
    let read = |usage: UsageMetadata| or_zero(usage.cache_read_input_token_count);
    let creation = |usage: UsageMetadata| or_zero(usage.cache_creation_input_token_count);
    assert(more.map_values(prompt).drop_last() =~= reported.map_values(prompt));
    assert(more.map_values(read).drop_last() =~= reported.map_values(read));
    assert(more.map_values(creation).drop_last() =~= reported.map_values(creation));
    assert(more.drop_last() =~= reported);
    reveal(Seq::filter);
}

/// Utility for computing cache effectiveness metrics from session events.
///
/// This is a stateless analyzer: call [`CachePerformanceAnalyzer::analyze`] with any slice of
/// events to get a [`CacheMetrics`] snapshot.
pub struct CachePerformanceAnalyzer;

impl CachePerformanceAnalyzer {
    /// Analyzes cache performance from a slice of events.
    ///
    /// Events without usage metadata are skipped. An empty slice returns zeroed metrics.
    pub fn analyze(events: &[Event]) -> (metrics: CacheMetrics)
        requires
            usages(events@).len() <= u32::MAX,
        ensures
            measures(metrics, usages(events@)),
    {
        let mut total_requests: u32 = 0;
        let mut requests_with_cache_hits: u32 = 0;
        let mut total_prompt_tokens: i64 = 0;
        let mut total_cache_read_tokens: i64 = 0;
        let mut total_cache_creation_tokens: i64 = 0;
        let mut i: usize = 0;
        proof {
            reveal(Seq::filter);
            assert(events@.take(0) =~= seq![]);
        }
        while i < events.len()
            invariant
                i <= events@.len(),
                usages(events@).len() <= u32::MAX,
                total_requests == usages(events@.take(i as int)).len(),
                requests_with_cache_hits == cache_hits(usages(events@.take(i as int))),
                requests_with_cache_hits <= total_requests,
                total_prompt_tokens == prompt_tokens(usages(events@.take(i as int))),
                total_cache_read_tokens == cache_read_tokens(usages(events@.take(i as int))),
                total_cache_creation_tokens == cache_creation_tokens(
                    usages(events@.take(i as int)),
                ),
                -0x8000_0000 * total_requests <= total_prompt_tokens <= 0x7fff_ffff
                    * total_requests,
                -0x8000_0000 * total_requests <= total_cache_read_tokens <= 0x7fff_ffff
                    * total_requests,
                -0x8000_0000 * total_requests <= total_cache_creation_tokens <= 0x7fff_ffff
                    * total_requests,
            decreases events@.len() - i,
        {
            let ghost before = usages(events@.take(i as int));
            assert(events@.take(i + 1).drop_last() =~= events@.take(i as int));
            if let Some(usage) = events[i].usage_metadata {
                proof {
                    lemma_usages_grow(events@, i + 1);
                    lemma_one_more_usage(before, usage);
                }
                total_requests += 1;
                total_prompt_tokens += i64::from(usage.prompt_token_count);
                let cache_read: i32 = usage.cache_read_input_token_count.unwrap_or(0);
                total_cache_read_tokens += i64::from(cache_read);
                if cache_read > 0 {
                    requests_with_cache_hits += 1;
                }
                let cache_creation: i32 = usage.cache_creation_input_token_count.unwrap_or(0);
                total_cache_creation_tokens += i64::from(cache_creation);
            }
            i += 1;
        }
        assert(events@.take(i as int) =~= events@);
        let nothing = Quotient { numerator: 0, denominator: 1 };
        CacheMetrics {
            total_requests,
            requests_with_cache_hits,
            total_prompt_tokens,
            total_cache_read_tokens,
            total_cache_creation_tokens,
            cache_hit_ratio: if total_prompt_tokens > 0 {
                Quotient { numerator: total_cache_read_tokens, denominator: total_prompt_tokens }
            } else {
                nothing
            },
            cache_utilization_ratio: if total_requests > 0 {
                Quotient {
                    numerator: requests_with_cache_hits as i64,
                    denominator: total_requests as i64,
                }
            } else {
                nothing
            },
            avg_cached_tokens_per_request: if total_requests > 0 {
                Quotient {
                    numerator: total_cache_read_tokens,
                    denominator: total_requests as i64,
                }
            } else {
                nothing
            },
        }
    }
}

/// A prefix of the events reports no more usage than all of them.
proof fn lemma_usages_grow(events: Seq<Event>, prefix: int)
    requires
        0 <= prefix <= events.len(),
    ensures
        usages(events.take(prefix)).len() <= usages(events).len(),
    decreases events.len() - prefix,
{
    if prefix == events.len() {
        assert(events.take(prefix) =~= events);
    } else {
        assert(events.take(prefix + 1).drop_last() =~= events.take(prefix));
        lemma_usages_grow(events, prefix + 1);
    }
}

/// There are no more usage reports than events.
pub proof fn lemma_usages_are_no_more_than_events(events: Seq<Event>)
    ensures
        usages(events).len() <= events.len(),
    decreases events.len(),
{
    if events.len() > 0 {
        lemma_usages_are_no_more_than_events(events.drop_last());
    }
}

/// The usage of one history after another is the usage of the first, then that of the second.
proof fn lemma_usages_concatenate(first: Seq<Event>, second: Seq<Event>)
    ensures
        usages(first + second) == usages(first) + usages(second),
    decreases second.len(),
{
    if second.len() == 0 {
        assert(first + second =~= first);
        assert(usages(first) + usages(second) =~= usages(first));
    } else {
        lemma_usages_concatenate(first, second.drop_last());
        assert((first + second).drop_last() =~= first + second.drop_last());
        assert((first + second).last() == second.last());
        match second.last().usage_metadata {
            Some(usage) => {
                assert(usages(first + second) =~= usages(first) + usages(second));
            },
            None => {},
        }
    }
}

proof fn lemma_sum_concatenates(first: Seq<int>, second: Seq<int>)
    ensures
        sum(first + second) == sum(first) + sum(second),
    decreases second.len(),
{
    if second.len() == 0 {
        assert(first + second =~= first);
    } else {
        lemma_sum_concatenates(first, second.drop_last());
        assert((first + second).drop_last() =~= first + second.drop_last());
    }
}

proof fn lemma_sum_is_monotonic(lower: Seq<int>, upper: Seq<int>)
    requires
        lower.len() == upper.len(),
        forall|i: int| 0 <= i < lower.len() ==> lower[i] <= #[trigger] upper[i],
    ensures
        sum(lower) <= sum(upper),
    decreases lower.len(),
{
    if lower.len() > 0 {
        lemma_sum_is_monotonic(lower.drop_last(), upper.drop_last());
    }
}

/// Events without usage metadata are skipped: a history and the same history without them
/// report the same usage.
pub proof fn law_events_without_usage_are_skipped(
    before: Seq<Event>,
    event: Event,
    after: Seq<Event>,
)
    requires
        event.usage_metadata is None,
    ensures
        usages(before + seq![event] + after) == usages(before + after),
{
    let alone = seq![event];
    reveal_with_fuel(usages, 2);
    lemma_usages_concatenate(before + alone, after);
    lemma_usages_concatenate(before, alone);
    lemma_usages_concatenate(before, after);
    assert(usages(alone) =~= seq![]);
    assert(usages(before) + usages(alone) =~= usages(before));
}

/// When no event has usage metadata, every metric is zero.
pub proof fn law_no_usage_means_zeroed_metrics(events: Seq<Event>, metrics: CacheMetrics)
    requires
        forall|i: int| 0 <= i < events.len() ==> (#[trigger] events[i]).usage_metadata is None,
        measures(metrics, usages(events)),
    ensures
        metrics.total_requests == 0,
        metrics.requests_with_cache_hits == 0,
        metrics.total_prompt_tokens == 0,
        metrics.total_cache_read_tokens == 0,
        metrics.total_cache_creation_tokens == 0,
        metrics.cache_hit_ratio.numerator == 0,
        metrics.cache_utilization_ratio.numerator == 0,
        metrics.avg_cached_tokens_per_request.numerator == 0,
    decreases events.len(),
{
    if events.len() > 0 {
        law_no_usage_means_zeroed_metrics(events.drop_last(), metrics);
    } else {
        reveal(Seq::filter);
    }
}

/// Totals add up: those of one history after another are the sums of those of the two.
pub proof fn law_totals_add_up(
    first: Seq<Event>,
    second: Seq<Event>,
    first_metrics: CacheMetrics,
    second_metrics: CacheMetrics,
    whole: CacheMetrics,
)
    requires
        measures(first_metrics, usages(first)),
        measures(second_metrics, usages(second)),
        measures(whole, usages(first + second)),
    ensures
        whole.total_requests == first_metrics.total_requests + second_metrics.total_requests,
        whole.requests_with_cache_hits == first_metrics.requests_with_cache_hits
            + second_metrics.requests_with_cache_hits,
        whole.total_prompt_tokens == first_metrics.total_prompt_tokens
            + second_metrics.total_prompt_tokens,
        whole.total_cache_read_tokens == first_metrics.total_cache_read_tokens
            + second_metrics.total_cache_read_tokens,
        whole.total_cache_creation_tokens == first_metrics.total_cache_creation_tokens
            + second_metrics.total_cache_creation_tokens,
{
    lemma_usages_concatenate(first, second);
    lemma_numbers_concatenate(usages(first), usages(second));
}

/// The utilization ratio is always a percentage from zero to a hundred.
pub proof fn law_utilization_is_a_percentage(
    reported: Seq<UsageMetadata>,
    metrics: CacheMetrics,
)
    requires
        measures(metrics, reported),
    ensures
        0 <= metrics.cache_utilization_ratio.numerator
            <= metrics.cache_utilization_ratio.denominator,
        metrics.cache_utilization_ratio.denominator > 0,
{
    reported.lemma_filter_len(is_hit());
}

/// The hit ratio is a percentage from zero to a hundred exactly when the caches supplied, in
/// all, no less than nothing and no more than the whole of the prompts.
pub proof fn law_hit_ratio_is_a_percentage(reported: Seq<UsageMetadata>, metrics: CacheMetrics)
    requires
        measures(metrics, reported),
        prompt_tokens(reported) > 0,
    ensures
        metrics.cache_hit_ratio.denominator > 0,
        0 <= metrics.cache_hit_ratio.numerator <= metrics.cache_hit_ratio.denominator <==> 0
            <= cache_read_tokens(reported) <= prompt_tokens(reported),
{
}

/// The hit ratio is a percentage from zero to a hundred whenever no single report claims more
/// cached tokens than its prompt has, or fewer than none.
pub proof fn law_hit_ratio_of_consistent_reports(
    reported: Seq<UsageMetadata>,
    metrics: CacheMetrics,
)
    requires
        measures(metrics, reported),
        forall|i: int|
            0 <= i < reported.len() ==> 0 <= or_zero(
                (#[trigger] reported[i]).cache_read_input_token_count,
            ) <= reported[i].prompt_token_count,
    ensures
        0 <= metrics.cache_hit_ratio.numerator <= metrics.cache_hit_ratio.denominator,
        metrics.cache_hit_ratio.denominator > 0,
{
    let prompt = reported.map_values(|usage: UsageMetadata| usage.prompt_token_count as int);
    let read = reported.map_values(
        |usage: UsageMetadata| or_zero(usage.cache_read_input_token_count),
    );
    let nothing = reported.map_values(|usage: UsageMetadata| 0int);
    lemma_sum_is_monotonic(read, prompt);
    lemma_sum_is_monotonic(nothing, read);
    lemma_sum_of_zeros(nothing);
}

proof fn lemma_sum_of_zeros(numbers: Seq<int>)
    requires
        forall|i: int| 0 <= i < numbers.len() ==> numbers[i] == 0,
    ensures
        sum(numbers) == 0,
    decreases numbers.len(),
{
    if numbers.len() > 0 {
        lemma_sum_of_zeros(numbers.drop_last());
    }
}

/// The numbers of a history are those of its parts.
proof fn lemma_numbers_concatenate(a: Seq<UsageMetadata>, b: Seq<UsageMetadata>)
    ensures
        prompt_tokens(a + b) == prompt_tokens(a) + prompt_tokens(b),
        cache_read_tokens(a + b) == cache_read_tokens(a) + cache_read_tokens(b),
        cache_creation_tokens(a + b) == cache_creation_tokens(a) + cache_creation_tokens(b),
        cache_hits(a + b) == cache_hits(a) + cache_hits(b),
{
    let prompt = |usage: UsageMetadata| usage.prompt_token_count as int;
    let read = |usage: UsageMetadata| or_zero(usage.cache_read_input_token_count);
    let creation = |usage: UsageMetadata| or_zero(usage.cache_creation_input_token_count);
    assert((a + b).map_values(prompt) =~= a.map_values(prompt) + b.map_values(prompt));
    assert((a + b).map_values(read) =~= a.map_values(read) + b.map_values(read));
    assert((a + b).map_values(creation) =~= a.map_values(creation) + b.map_values(creation));
    lemma_sum_concatenates(a.map_values(prompt), b.map_values(prompt));
    lemma_sum_concatenates(a.map_values(read), b.map_values(read));
    lemma_sum_concatenates(a.map_values(creation), b.map_values(creation));
    Seq::filter_distributes_over_add(a, b, is_hit());
}

/// The numbers of two histories agree.
spec fn same_numbers(a: Seq<UsageMetadata>, b: Seq<UsageMetadata>) -> bool {
    &&& a.len() == b.len()
    &&& prompt_tokens(a) == prompt_tokens(b)
    &&& cache_read_tokens(a) == cache_read_tokens(b)
    &&& cache_creation_tokens(a) == cache_creation_tokens(b)
    &&& cache_hits(a) == cache_hits(b)
}

/// Where an event stands does not change the numbers: it might as well be the last.
proof fn lemma_event_moved_to_the_end(events: Seq<Event>, place: int)
    requires
        0 <= place < events.len(),
    ensures
        same_numbers(usages(events), usages(events.remove(place).push(events[place]))),
{
    let before = events.take(place);
    let event = seq![events[place]];
    let after = events.skip(place + 1);
    assert(events =~= before + event + after);
    assert(events.remove(place).push(events[place]) =~= before + after + event);
    lemma_usages_concatenate(before + event, after);
    lemma_usages_concatenate(before, event);
    lemma_usages_concatenate(before + after, event);
    lemma_usages_concatenate(before, after);
    lemma_numbers_concatenate(usages(before) + usages(event), usages(after));
    lemma_numbers_concatenate(usages(before), usages(event));
    lemma_numbers_concatenate(usages(before) + usages(after), usages(event));
    lemma_numbers_concatenate(usages(before), usages(after));
}

proof fn lemma_order_does_not_matter(events: Seq<Event>, reordered: Seq<Event>)
    requires
        events.to_multiset() == reordered.to_multiset(),
    ensures
        same_numbers(usages(events), usages(reordered)),
    decreases events.len(),
{
    broadcast use vstd::seq_lib::group_to_multiset_ensures;

    events.to_multiset_ensures();
    reordered.to_multiset_ensures();
    assert(events.len() == reordered.len());
    if events.len() == 0 {
        assert(events =~= reordered);
    } else {
        let last = events.last();
        assert(events.contains(last));
        assert(events.to_multiset().count(last) > 0);
        assert(reordered.contains(last));
        let place = choose|i: int| 0 <= i < reordered.len() && reordered[i] == last;
        let rest = reordered.remove(place);
        assert(events.drop_last() =~= events.remove(events.len() - 1));
        assert(events.drop_last().to_multiset() =~= rest.to_multiset());
        lemma_order_does_not_matter(events.drop_last(), rest);
        lemma_event_moved_to_the_end(reordered, place);
        let alone = seq![last];
        assert(events =~= events.drop_last() + alone);
        assert(rest.push(last) =~= rest + alone);
        lemma_usages_concatenate(events.drop_last(), alone);
        lemma_usages_concatenate(rest, alone);
        lemma_numbers_concatenate(usages(events.drop_last()), usages(alone));
        lemma_numbers_concatenate(usages(rest), usages(alone));
    }
}

/// The order of events does not change the metrics.
pub proof fn law_the_order_of_events_does_not_matter(
    events: Seq<Event>,
    reordered: Seq<Event>,
    metrics: CacheMetrics,
    reordered_metrics: CacheMetrics,
)
    requires
        events.to_multiset() == reordered.to_multiset(),
        measures(metrics, usages(events)),
        measures(reordered_metrics, usages(reordered)),
    ensures
        metrics == reordered_metrics,
{
    lemma_order_does_not_matter(events, reordered);
}

/// Every event with usage metadata counts, whatever it reports and wherever it stands: its usage
/// is reported between that of the events before it and that of the events after it.
pub proof fn law_every_reported_usage_counts(
    before: Seq<Event>,
    event: Event,
    after: Seq<Event>,
    usage: UsageMetadata,
)
    requires
        event.usage_metadata == Some(usage),
    ensures
        usages(before + seq![event] + after) == usages(before) + seq![usage] + usages(after),
        usages(Seq::<Event>::empty()) == Seq::<UsageMetadata>::empty(),
{
    let alone = seq![event];
    reveal_with_fuel(usages, 2);
    lemma_usages_concatenate(before + alone, after);
    lemma_usages_concatenate(before, alone);
    assert(usages(alone) =~= seq![usage]);
}

/// The requests are exactly the events with usage metadata, and the hits are exactly those of
/// them with a positive number of cached tokens.
pub proof fn law_requests_and_hits_are_counted(events: Seq<Event>, metrics: CacheMetrics)
    requires
        measures(metrics, usages(events)),
    ensures
        metrics.total_requests == events.filter(|event: Event| event.usage_metadata is Some).len(),
        metrics.requests_with_cache_hits == events.filter(
            |event: Event|
                event.usage_metadata is Some
                    && event.usage_metadata->0.cache_read_input_token_count is Some
                    && event.usage_metadata->0.cache_read_input_token_count->0 > 0,
        ).len(),
{
    lemma_requests_and_hits(events);
}

proof fn lemma_requests_and_hits(events: Seq<Event>)
    ensures
        usages(events).len() == events.filter(|event: Event| event.usage_metadata is Some).len(),
        cache_hits(usages(events)) == events.filter(
            |event: Event|
                event.usage_metadata is Some
                    && event.usage_metadata->0.cache_read_input_token_count is Some
                    && event.usage_metadata->0.cache_read_input_token_count->0 > 0,
        ).len(),
    decreases events.len(),
{
    reveal(Seq::filter);
    if events.len() > 0 {
        let rest = events.drop_last();
        lemma_requests_and_hits(rest);
        if let Some(usage) = events.last().usage_metadata {
            lemma_one_more_usage(usages(rest), usage);
        }
    }
}

/// One more event changes the totals by exactly what it reports: one request, its prompt tokens,
/// its cached tokens, one hit if there are any, and the tokens it wrote to a cache. What is not
/// reported counts as zero, and an event without usage metadata changes nothing.
pub proof fn law_one_more_event_adds_what_it_reports(
    events: Seq<Event>,
    event: Event,
    metrics: CacheMetrics,
    more: CacheMetrics,
)
    requires
        measures(metrics, usages(events)),
        measures(more, usages(events.push(event))),
    ensures
        event.usage_metadata is None ==> more == metrics,
        event.usage_metadata matches Some(usage) ==> {
            let read = match usage.cache_read_input_token_count {
                Some(count) => count as int,
                None => 0,
            };
            let creation = match usage.cache_creation_input_token_count {
                Some(count) => count as int,
                None => 0,
            };
            &&& more.total_requests == metrics.total_requests + 1
            &&& more.total_prompt_tokens == metrics.total_prompt_tokens + usage.prompt_token_count
            &&& more.total_cache_read_tokens == metrics.total_cache_read_tokens + read
            &&& read > 0 ==> more.requests_with_cache_hits == metrics.requests_with_cache_hits + 1
            &&& read <= 0 ==> more.requests_with_cache_hits == metrics.requests_with_cache_hits
            &&& more.total_cache_creation_tokens == metrics.total_cache_creation_tokens + creation
        },
{
    assert(events.push(event).drop_last() =~= events);
    if let Some(usage) = event.usage_metadata {
        lemma_one_more_usage(usages(events), usage);
    }
}

/// The ratios are those of the totals: cached tokens to prompt tokens, hits to requests, and
/// cached tokens to requests, each exactly; where there is nothing to divide by, the ratio is
/// zero.
pub proof fn law_ratios_are_those_of_the_totals(events: Seq<Event>, metrics: CacheMetrics)
    requires
        measures(metrics, usages(events)),
    ensures
        metrics.cache_hit_ratio.denominator > 0,
        metrics.cache_utilization_ratio.denominator > 0,
        metrics.avg_cached_tokens_per_request.denominator > 0,
        metrics.total_prompt_tokens > 0 ==> {
            &&& metrics.cache_hit_ratio.numerator == metrics.total_cache_read_tokens
            &&& metrics.cache_hit_ratio.denominator == metrics.total_prompt_tokens
        },
        metrics.total_prompt_tokens <= 0 ==> metrics.cache_hit_ratio == (Quotient {
            numerator: 0,
            denominator: 1,
        }),
        metrics.total_requests > 0 ==> {
            &&& metrics.cache_utilization_ratio.numerator == metrics.requests_with_cache_hits
            &&& metrics.cache_utilization_ratio.denominator == metrics.total_requests
            &&& metrics.avg_cached_tokens_per_request.numerator == metrics.total_cache_read_tokens
            &&& metrics.avg_cached_tokens_per_request.denominator == metrics.total_requests
        },
        metrics.total_requests == 0 ==> {
            &&& metrics.cache_utilization_ratio == (Quotient { numerator: 0, denominator: 1 })
            &&& metrics.avg_cached_tokens_per_request == (Quotient {
                numerator: 0,
                denominator: 1,
            })
        },
{
}

} // verus!
