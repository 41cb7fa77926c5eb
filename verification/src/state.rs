//! The application state and the reconciler that owns it.
//!
//! The state is one snapshot: the text of the latest sample and the current
//! configuration. Events reach it one at a time through [`AppModel::update`],
//! which answers with what the driver has to do next. Taking a sample is the
//! driver's work; its result comes back through [`AppModel::record`].

use crate::sampler::{sampled, CommandOutcome, SampleResult, SampleView};
use vstd::prelude::*;

verus! {

/// The events that the application state answers to. `C` is the type of a
/// configuration snapshot, which the state only stores.
#[derive(Clone, Debug, PartialEq, Eq)]
pub enum Message<C> {
    /// The startup signal, sent once when the event stream begins.
    SubscriptionChannel,
    /// The configuration changed to the snapshot given.
    UpdateConfig(C),
    /// The timer ticked: a fresh sample is due.
    UpdateEnergyRate,
}

/// What the driver has to do after an event was applied.
#[derive(Clone, Copy, Debug, PartialEq, Eq)]
pub enum Effect {
    /// Nothing: the state is as it was and nobody is told.
    Idle,
    /// Take a sample and hand it to [`AppModel::record`].
    Sample,
    /// Deliver the state to the presentation layer.
    Notify,
}

/// The application state: the text of the latest sample and the current
/// configuration.
#[derive(Debug)]
pub struct AppModel<C> {
    config: C,
    energy_rate: String,
}

/// An [`AppModel`] as a plain value.
pub ghost struct AppModelView<C> {
    pub config: C,
    pub metric_text: Seq<char>,
}

/// The state after `message` and the effect that it asks for.
///
/// The startup signal changes nothing and asks for nothing. A tick leaves the
/// state as it is and asks for a sample. A configuration change replaces the
/// configuration, keeps the text and asks for a notification.
pub open spec fn updated<C>(state: AppModelView<C>, message: Message<C>) -> (
    AppModelView<C>,
    Effect,
) {
    match message {
        Message::SubscriptionChannel => (state, Effect::Idle),
        Message::UpdateConfig(config) => (
            AppModelView { config, metric_text: state.metric_text },
            Effect::Notify,
        ),
        Message::UpdateEnergyRate => (state, Effect::Sample),
    }
}

/// The state after `sample` was recorded, and the effect of that: the text
/// is that of the sample, the configuration is kept, and a notification is
/// due whether or not the text changed.
pub open spec fn recorded<C>(state: AppModelView<C>, sample: SampleView) -> (
    AppModelView<C>,
    Effect,
) {
    (AppModelView { config: state.config, metric_text: sample.text() }, Effect::Notify)
}

/// The state after a whole tick whose run of the command ended as `outcome`,
/// and the effect that the tick ends with.
pub open spec fn ticked<C>(state: AppModelView<C>, outcome: CommandOutcome) -> (
    AppModelView<C>,
    Effect,
) {
    recorded(updated(state, Message::UpdateEnergyRate).0, sampled(outcome))
}

impl<C> View for AppModel<C> {
    type V = AppModelView<C>;

    closed spec fn view(&self) -> AppModelView<C> {
        AppModelView { config: self.config, metric_text: self.energy_rate@ }
    }
}

impl<C> AppModel<C> {
    /// The state at startup: the configuration that was loaded, or `fallback`
    /// where none was, and the text of the first sample.
    pub fn init(loaded: Option<C>, fallback: C, first: &SampleResult) -> (model: Self)
        ensures
            model@.config == match loaded {
                Some(config) => config,
                None => fallback,
            },
            model@.metric_text == first@.text(),
    {
        let config = match loaded {
            Some(config) => config,
            None => fallback,
        };
        AppModel { config, energy_rate: first.text() }
    }

    /// The current configuration.
    pub fn config(&self) -> (config: &C)
        ensures
            *config == self@.config,
    {
        &self.config
    }

    /// The text of the latest sample.
    pub fn metric_text(&self) -> (text: &str)
        ensures
            text@ == self@.metric_text,
    {
        self.energy_rate.as_str()
    }

    /// Applies one event and says what the driver has to do next.
    pub fn update(&mut self, message: Message<C>) -> (effect: Effect)
        ensures
            (final(self)@, effect) == updated(old(self)@, message),
    {
        match message {
            Message::SubscriptionChannel => Effect::Idle,
            Message::UpdateConfig(config) => {
                self.config = config;
                Effect::Notify
            },
            Message::UpdateEnergyRate => Effect::Sample,
        }
    }

    /// Records the sample that a tick asked for: its text replaces the
    /// text of the state, and a notification is due.
    pub fn record(&mut self, sample: &SampleResult) -> (effect: Effect)
        ensures
            (final(self)@, effect) == recorded(old(self)@, sample@),
    {
        self.energy_rate = sample.text();
        Effect::Notify
    }
}

/// Two ticks in a row whose runs end alike leave the same text, and each of
/// them ends with a notification.
pub proof fn lemma_tick_is_idempotent<C>(state: AppModelView<C>, outcome: CommandOutcome)
    ensures
        ticked(ticked(state, outcome).0, outcome).0 == ticked(state, outcome).0,
        ticked(state, outcome).1 == Effect::Notify,
        ticked(ticked(state, outcome).0, outcome).1 == Effect::Notify,
{
}

/// A configuration change never alters the text, and neither a tick's
/// request for a sample nor the recording of it alters the configuration.
pub proof fn lemma_config_isolation<C>(
    state: AppModelView<C>,
    config: C,
    outcome: CommandOutcome,
    sample: SampleView,
)
    ensures
        updated(state, Message::UpdateConfig(config)).0.metric_text == state.metric_text,
        updated(state, Message::UpdateConfig(config)).0.config == config,
        updated(state, Message::<C>::UpdateEnergyRate).0 == state,
        recorded(state, sample).0.config == state.config,
        ticked(state, outcome).0.config == state.config,
{
}

/// The startup signal is a no-op: the state stays and nobody is told.
pub proof fn lemma_startup_signal_is_no_op<C>(state: AppModelView<C>)
    ensures
        updated(state, Message::<C>::SubscriptionChannel) == (state, Effect::Idle),
{
}

} // verus!
