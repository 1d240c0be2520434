//! A recorder of HTTP interactions: what it has recorded, the mode it
//! answers requests in, and the matcher that compares a request with what
//! was recorded.

use vstd::prelude::*;
use crate::environment::{new_uuid, uuid_v4_text};
use crate::http::{
    find_matching, first_match, interaction_matches, recorder_action, HttpInteraction, HttpInteractionMatcher,
    HttpRequest, HttpResponse, RecorderAction, RecordingMode,
};

verus! {

/// Recorded HTTP interactions, in the order they were recorded.
pub struct HttpInteractionRecorder {
    name: String,
    mode: RecordingMode,
    matcher: HttpInteractionMatcher,
    interactions: Vec<HttpInteraction>,
}

impl HttpInteractionRecorder {
    /// The recorder's name.
    pub closed spec fn name_text(&self) -> Seq<char> {
        self.name@
    }

    /// The mode requests are answered in.
    pub closed spec fn current_mode(&self) -> RecordingMode {
        self.mode
    }

    /// The matcher that compares a request with a recorded interaction.
    pub closed spec fn matcher_of(&self) -> HttpInteractionMatcher {
        self.matcher
    }

    /// The recorded interactions, oldest first.
    pub closed spec fn recorded(&self) -> Seq<HttpInteraction> {
        self.interactions@
    }

    /// A recorder of this name, mode and matcher that has recorded nothing.
    pub fn new(name: String, mode: RecordingMode, matcher: HttpInteractionMatcher) -> (r: HttpInteractionRecorder)
        ensures
            r.name_text() == name@,
            r.current_mode() == mode,
            r.matcher_of() == matcher,
            r.recorded() == Seq::<HttpInteraction>::empty(),
    {
        HttpInteractionRecorder { name, mode, matcher, interactions: Vec::new() }
    }

    /// The recorder's name.
    pub fn name(&self) -> (n: &str)
        ensures
            n@ == self.name_text(),
    {
        self.name.as_str()
    }

    /// The mode requests are answered in.
    pub fn mode(&self) -> (m: RecordingMode)
        ensures
            m == self.current_mode(),
    {
        self.mode
    }

    /// Changes the mode; the recorded interactions stay.
    pub fn set_mode(&mut self, mode: RecordingMode)
        ensures
            final(self).current_mode() == mode,
            final(self).name_text() == old(self).name_text(),
            final(self).matcher_of() == old(self).matcher_of(),
            final(self).recorded() == old(self).recorded(),
    {
        self.mode = mode;
    }

    /// Records an interaction after those already recorded.
    pub fn record(&mut self, interaction: HttpInteraction)
        ensures
            final(self).recorded() == old(self).recorded().push(interaction),
            final(self).current_mode() == old(self).current_mode(),
            final(self).name_text() == old(self).name_text(),
            final(self).matcher_of() == old(self).matcher_of(),
    {
        self.interactions.push(interaction);
    }

    /// Records what the real service answered to a request, under a fresh
    /// identifier, with the latency it took and no tags.
    pub fn record_service_response(&mut self, request: HttpRequest, response: HttpResponse, latency_ms: u64)
        ensures
            final(self).recorded().len() == old(self).recorded().len() + 1,
            final(self).recorded().drop_last() == old(self).recorded(),
            final(self).recorded().last().request == request,
            final(self).recorded().last().response == response,
            final(self).recorded().last().latency_ms == latency_ms,
            final(self).recorded().last().tags@.len() == 0,
            uuid_v4_text(final(self).recorded().last().id@),
            final(self).current_mode() == old(self).current_mode(),
            final(self).name_text() == old(self).name_text(),
            final(self).matcher_of() == old(self).matcher_of(),
    {
        let interaction = HttpInteraction::new(new_uuid(), request, response).with_latency(latency_ms);
        self.interactions.push(interaction);
        assert(self.interactions@.drop_last() =~= old(self).interactions@);
    }

    /// No recorded interaction answers the request.
    pub open spec fn answers_none(&self, request: &HttpRequest) -> bool {
        forall|j: int|
            0 <= j < self.recorded().len() ==> !interaction_matches(self.matcher_of(), #[trigger] self.recorded()[j].request, *request)
    }

    /// The first recorded interaction that answers the request.
    pub fn find_matching(&self, request: &HttpRequest) -> (r: Option<&HttpInteraction>)
        ensures
            match r {
                Some(x) => exists|i: int| first_match(self.matcher_of(), self.recorded(), *request, i) && *x == #[trigger] self.recorded()[i],
                None => self.answers_none(request),
            },
    {
        match find_matching(&self.matcher, &self.interactions, request) {
            Some(i) => Some(&self.interactions[i]),
            None => None,
        }
    }

    /// What the recorder does with a request in its mode: replay the first
    /// recorded interaction that answers it, answer 404, or call the real
    /// service (recording the interaction unless passing it through).
    pub fn handle_request(&self, request: &HttpRequest) -> (a: RecorderAction)
        ensures
            match self.current_mode() {
                RecordingMode::Record => a == RecorderAction::CallService { record: true },
                RecordingMode::Passthrough => a == RecorderAction::CallService { record: false },
                _ => match a {
                    RecorderAction::Replay(i) => first_match(self.matcher_of(), self.recorded(), *request, i as int),
                    RecorderAction::NotFound => self.current_mode() == RecordingMode::Replay && self.answers_none(request),
                    RecorderAction::CallService { record } => self.current_mode() == RecordingMode::Auto && record
                        && self.answers_none(request),
                },
            },
    {
        let found = find_matching(&self.matcher, &self.interactions, request);
        recorder_action(self.mode, found)
    }

    /// Forgets every recorded interaction.
    pub fn clear(&mut self)
        ensures
            final(self).recorded() == Seq::<HttpInteraction>::empty(),
            final(self).current_mode() == old(self).current_mode(),
            final(self).name_text() == old(self).name_text(),
            final(self).matcher_of() == old(self).matcher_of(),
    {
        self.interactions = Vec::new();
    }

    /// The recorded interactions, oldest first.
    pub fn get_interactions(&self) -> (r: &Vec<HttpInteraction>)
        ensures
            r@ == self.recorded(),
    {
        &self.interactions
    }
}

} // verus!
