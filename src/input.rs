//! The interactive code input helper: the nameplate is chosen first, then
//! the words, each once.
use vstd::prelude::*;
use crate::api::InputHelperError;
use crate::code::{joined, make_code};
use crate::event::{Code, Event, Events, ListerEvent, Nameplate};

verus! {

pub enum InputState {
    /// Input has not been started.
    Inactive,
    WantNameplate,
    WantWords(Nameplate),
    Done,
}

pub struct InputMachine {
    pub state: InputState,
}

impl InputMachine {
    pub fn new() -> (r: InputMachine)
        ensures
            r.state is Inactive,
    {
        InputMachine { state: InputState::Inactive }
    }

    /// Starts input; a started helper is left as it is.
    pub fn start(&mut self)
        ensures
            old(self).state is Inactive ==> final(self).state is WantNameplate,
            !(old(self).state is Inactive) ==> final(self).state == old(self).state,
    {
        if let InputState::Inactive = self.state {
            self.state = InputState::WantNameplate;
        }
    }

    /// Asks the Lister for the nameplates, while the nameplate is open.
    pub fn refresh_nameplates(&self) -> (r: Result<Events, InputHelperError>)
        ensures
            self.state is Inactive ==> r == Err::<Events, _>(InputHelperError::Inactive),
            self.state is WantNameplate ==> r is Ok && r->Ok_0@ == seq![Event::Lister(ListerEvent::Refresh)],
            (self.state is WantWords || self.state is Done) ==> r == Err::<Events, _>(
                InputHelperError::AlreadyChoseNameplate,
            ),
    {
        match self.state {
            InputState::Inactive => Err(InputHelperError::Inactive),
            InputState::WantNameplate => Ok(vec![Event::Lister(ListerEvent::Refresh)]),
            InputState::WantWords(_) => Err(InputHelperError::AlreadyChoseNameplate),
            InputState::Done => Err(InputHelperError::AlreadyChoseNameplate),
        }
    }

    /// Locks the nameplate half of the code.
    pub fn choose_nameplate(&mut self, nameplate: Nameplate) -> (r: Result<(), InputHelperError>)
        ensures
            old(self).state is Inactive ==> r == Err::<(), _>(InputHelperError::Inactive),
            old(self).state is WantNameplate ==> r is Ok && final(self).state == InputState::WantWords(
                nameplate,
            ),
            (old(self).state is WantWords || old(self).state is Done) ==> r == Err::<(), _>(
                InputHelperError::AlreadyChoseNameplate,
            ),
            r is Err ==> final(self).state == old(self).state,
    {
        match self.state {
            InputState::Inactive => Err(InputHelperError::Inactive),
            InputState::WantNameplate => {
                self.state = InputState::WantWords(nameplate);
                Ok(())
            },
            InputState::WantWords(_) => Err(InputHelperError::AlreadyChoseNameplate),
            InputState::Done => Err(InputHelperError::AlreadyChoseNameplate),
        }
    }

    /// Finishes the code: `<nameplate>-<words>`.
    pub fn choose_words(&mut self, words: String) -> (r: Result<Code, InputHelperError>)
        ensures
            old(self).state is Inactive ==> r == Err::<Code, _>(InputHelperError::Inactive),
            old(self).state is WantNameplate ==> r == Err::<Code, _>(
                InputHelperError::MustChooseNameplateFirst,
            ),
            old(self).state is Done ==> r == Err::<Code, _>(InputHelperError::AlreadyChoseWords),
            old(self).state is WantWords ==> {
                &&& r is Ok
                &&& r->Ok_0.0@ == joined(old(self).state->WantWords_0.0@, seq![words@])
                &&& final(self).state is Done
            },
            r is Err ==> final(self).state == old(self).state,
    {
        match &self.state {
            InputState::Inactive => Err(InputHelperError::Inactive),
            InputState::WantNameplate => Err(InputHelperError::MustChooseNameplateFirst),
            InputState::Done => Err(InputHelperError::AlreadyChoseWords),
            InputState::WantWords(nameplate) => {
                let ghost w = words@;
                let ws: Vec<String> = vec![words];
                let code = make_code(nameplate, &ws);
                proof {
                    assert(ws@.map_values(|s: String| s@) =~= seq![w]);
                }
                self.state = InputState::Done;
                Ok(code)
            },
        }
    }
}

} // verus!
