use vstd::prelude::*;
use rand::Rng;

verus! {

/// The weather at the airport. Only inclement weather blocks departures.
#[derive(Clone, Copy, Debug, PartialEq, Eq, Structural)]
pub enum WeatherCondition {
    Clear,
    Rain,
    InclementWeather,
}

/// The weather as the rest of the airport reads it.
#[derive(Clone, Copy, Debug)]
pub struct Weather {
    pub condition: WeatherCondition,
    /// Degrees, 0 to 360.
    pub wind_direction: usize,
    /// Whole knots.
    pub wind_speed: usize,
}

/// What the operations center announces when the weather changes.
#[derive(Clone, Copy, Debug, PartialEq, Eq, Structural)]
pub enum WeatherNotice {
    /// Nothing to announce.
    Unchanged,
    /// Inclement weather has set in: departures are halted.
    DeparturesHalted,
    /// Inclement weather is over.
    DeparturesResumed,
}

/// Relies on rand's `Rng::gen_range` over the thread-local generator: a
/// value drawn from `0..n`. It panics on an empty range, which `n > 0`
/// rules out.
#[verifier::external_body]
pub(crate) fn random_below(n: usize) -> (r: usize)
    requires
        n > 0,
    ensures
        r < n,
{
    rand::thread_rng().gen_range(0..n)
}

/// How many values the first draw of a tick ranges over in `c`.
pub open spec fn first_draw_range(c: WeatherCondition) -> usize {
    match c {
        WeatherCondition::Clear => 300,
        _ => 100,
    }
}

/// How many values the first draw of a tick ranges over in `c`.
pub fn draw_range(c: WeatherCondition) -> (r: usize)
    ensures
        r == first_draw_range(c),
{
    match c {
        WeatherCondition::Clear => 300,
        _ => 100,
    }
}

/// How many values the second draw of a clear tick ranges over.
pub const SECOND_DRAW_RANGE: usize = 1000;

/// The next condition after `c`, given the draws of this tick: from clear,
/// rain with 2 chances in 300, else inclement weather with 2 in 1000; rain
/// clears with 5 chances in 100; inclement weather clears with 2 in 100.
pub open spec fn weather_after(c: WeatherCondition, first: usize, second: usize) -> WeatherCondition {
    match c {
        WeatherCondition::Clear => if first <= 1 {
            WeatherCondition::Rain
        } else if second <= 1 {
            WeatherCondition::InclementWeather
        } else {
            WeatherCondition::Clear
        },
        WeatherCondition::Rain => if first < 95 {
            WeatherCondition::Rain
        } else {
            WeatherCondition::Clear
        },
        WeatherCondition::InclementWeather => if first < 98 {
            WeatherCondition::InclementWeather
        } else {
            WeatherCondition::Clear
        },
    }
}

/// What changing from `before` to `after` announces.
pub open spec fn notice_for(before: WeatherCondition, after: WeatherCondition) -> WeatherNotice {
    if before != WeatherCondition::InclementWeather && after == WeatherCondition::InclementWeather {
        WeatherNotice::DeparturesHalted
    } else if before == WeatherCondition::InclementWeather && after != WeatherCondition::InclementWeather {
        WeatherNotice::DeparturesResumed
    } else {
        WeatherNotice::Unchanged
    }
}

/// The next condition after `c`, given the draws of this tick.
pub fn next_condition(c: WeatherCondition, first: usize, second: usize) -> (r: WeatherCondition)
    ensures
        r == weather_after(c, first, second),
{
    match c {
        WeatherCondition::Clear => if first <= 1 {
            WeatherCondition::Rain
        } else if second <= 1 {
            WeatherCondition::InclementWeather
        } else {
            WeatherCondition::Clear
        },
        WeatherCondition::Rain => if first < 95 {
            WeatherCondition::Rain
        } else {
            WeatherCondition::Clear
        },
        WeatherCondition::InclementWeather => if first < 98 {
            WeatherCondition::InclementWeather
        } else {
            WeatherCondition::Clear
        },
    }
}

/// Announces the change from `before` to `after`, if any.
pub fn weather_notice(before: WeatherCondition, after: WeatherCondition) -> (r: WeatherNotice)
    ensures
        r == notice_for(before, after),
{
    if before != WeatherCondition::InclementWeather && after == WeatherCondition::InclementWeather {
        WeatherNotice::DeparturesHalted
    } else if before == WeatherCondition::InclementWeather && after != WeatherCondition::InclementWeather {
        WeatherNotice::DeparturesResumed
    } else {
        WeatherNotice::Unchanged
    }
}

/// Advances the weather condition by one tick of its Markov chain, drawing
/// at random, and says what to announce. The wind is left as it is.
pub fn simulate_weather(weather: &mut Weather) -> (r: WeatherNotice)
    ensures
        exists|first: usize, second: usize|
            first < first_draw_range(old(weather).condition) && second < SECOND_DRAW_RANGE
            && #[trigger] weather_after(old(weather).condition, first, second) == final(weather).condition,
        final(weather).wind_direction == old(weather).wind_direction,
        final(weather).wind_speed == old(weather).wind_speed,
        r == notice_for(old(weather).condition, final(weather).condition),
{
    let before = weather.condition;
    let first = random_below(draw_range(before));
    let second = if before == WeatherCondition::Clear && first > 1 {
        random_below(SECOND_DRAW_RANGE)
    } else {
        0
    };
    weather.condition = next_condition(before, first, second);
    weather_notice(before, weather.condition)
}

} // verus!
