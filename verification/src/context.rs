use vstd::prelude::*;
use crate::error::LqError;

verus! {

/// Information used for key ref validation: the length of a map whose keys can be referenced.
#[derive(Clone, Copy, Debug, PartialEq, Eq, Hash, Structural)]
pub struct KeyRefInfo {
    map_len: u32,
}

impl KeyRefInfo {
    pub closed spec fn spec_map_len(&self) -> u32 {
        self.map_len
    }

    /// The key ref info for a map of the given length.
    pub closed spec fn spec_new(map_len: u32) -> KeyRefInfo {
        KeyRefInfo { map_len }
    }

    pub fn new(map_len: u32) -> (r: KeyRefInfo)
        ensures
            r == KeyRefInfo::spec_new(map_len),
            r.spec_map_len() == map_len,
    {
        KeyRefInfo { map_len }
    }

    /// The length of the map that's currently being validated.
    pub fn map_len(&self) -> (r: u32)
        ensures
            r == self.spec_map_len(),
    {
        self.map_len
    }
}

/// The state that validation carries from one value to the next: the anchor currently being
/// validated, the highest anchor index referenced so far, and a stack with the lengths of the
/// maps whose keys can be referenced (innermost map last).
pub struct StateView {
    pub anchor_index: Option<u32>,
    pub max_used_anchor_index: Option<u32>,
    pub key_refs: Seq<KeyRefInfo>,
}

/// The executable validation state (see `StateView`).
pub struct ValidationState {
    pub anchor_index: Option<u32>,
    pub max_used_anchor_index: Option<u32>,
    pub key_refs: Vec<KeyRefInfo>,
}

impl View for ValidationState {
    type V = StateView;

    open spec fn view(&self) -> StateView {
        StateView {
            anchor_index: self.anchor_index,
            max_used_anchor_index: self.max_used_anchor_index,
            key_refs: self.key_refs@,
        }
    }
}

/// The state at the start of a validation: no anchors, no maps.
pub open spec fn initial_state() -> StateView {
    StateView { anchor_index: None, max_used_anchor_index: None, key_refs: Seq::empty() }
}

/// The key ref info of the map at the given level (0: innermost map).
pub open spec fn key_ref_info_at(st: StateView, level: u32) -> Option<KeyRefInfo> {
    if level < st.key_refs.len() {
        Some(st.key_refs[st.key_refs.len() - 1 - level])
    } else {
        None
    }
}

/// The state with the given key ref info pushed on top of the stack.
pub open spec fn push_key_ref(st: StateView, info: KeyRefInfo) -> StateView {
    StateView { key_refs: st.key_refs.push(info), ..st }
}

/// The state with the top of the key ref stack removed; an error if the stack is empty.
pub open spec fn pop_key_ref(st: StateView) -> Result<StateView, LqError> {
    if st.key_refs.len() == 0 {
        Err(LqError::KeyRefStackEmpty)
    } else {
        Ok(StateView { key_refs: st.key_refs.drop_last(), ..st })
    }
}

impl ValidationState {
    pub fn new() -> (r: ValidationState)
        ensures
            r@ == initial_state(),
    {
        ValidationState { anchor_index: None, max_used_anchor_index: None, key_refs: Vec::new() }
    }

    /// Returns the key ref info of the map at the given level (0: the innermost map).
    pub fn key_ref_info(&self, level: u32) -> (r: Option<KeyRefInfo>)
        ensures
            r == key_ref_info_at(self@, level),
    {
        let len = self.key_refs.len();
        if (level as usize) < len {
            Some(self.key_refs[len - 1 - level as usize])
        } else {
            None
        }
    }

    /// Pushes a new key ref info on top of the stack.
    pub fn push_key_ref_info(&mut self, info: KeyRefInfo)
        ensures
            final(self)@ == push_key_ref(old(self)@, info),
    {
        self.key_refs.push(info);
    }

    /// Pops the key ref info from the top of the stack; fails when the stack is empty.
    pub fn pop_key_ref_info(&mut self) -> (r: Result<KeyRefInfo, LqError>)
        ensures
            match pop_key_ref(old(self)@) {
                Ok(st) => r == Ok::<KeyRefInfo, LqError>(old(self)@.key_refs.last())
                    && final(self)@ == st,
                Err(e) => r == Err::<KeyRefInfo, LqError>(e) && final(self)@ == old(self)@,
            },
    {
        match self.key_refs.pop() {
            Some(info) => Ok(info),
            None => Err(LqError::KeyRefStackEmpty),
        }
    }
}

} // verus!
