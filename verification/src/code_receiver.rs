//! Receiving the code artifacts a code generator produces, each under a path.
use vstd::prelude::*;
use crate::error::LqError;

verus! {

/// The path of an artifact (for example a file name).
#[derive(Clone, Debug, PartialEq, Eq, Hash)]
pub struct Path {
    path: String,
}

impl Path {
    /// The path as text.
    pub closed spec fn view(&self) -> Seq<char> {
        self.path@
    }

    pub fn new(path: String) -> (r: Path)
        ensures
            r@ == path@,
    {
        Path { path }
    }

    /// The path as text.
    pub fn as_str(&self) -> (r: &str)
        ensures
            r@ == self@,
    {
        self.path.as_str()
    }

    /// True if both paths are the same text.
    pub fn is_equal(&self, other: &Path) -> (r: bool)
        ensures
            r == (self@ == other@),
    {
        self.path == other.path
    }
}

/// A piece of generated code.
pub enum Code {
    /// The code as text.
    String(String),
}

/// The text of a piece of code.
pub open spec fn code_text(code: Code) -> Seq<char> {
    match code {
        Code::String(s) => s@,
    }
}

/// Something that receives generated code.
pub trait CodeReceiver {
    /// Receives the code for the given path.
    fn add(&mut self, path: Path, code: Code);
}

/// Receives code and keeps it, by path, until it is taken.
pub struct DefaultCodeReceiver {
    artifacts: Vec<(Path, Code)>,
}

/// Entry `i` of `artifacts` has the path `k`.
pub open spec fn has_path_at(artifacts: Seq<(Path, Code)>, k: Seq<char>, i: int) -> bool {
    0 <= i < artifacts.len() && artifacts[i].0@ == k
}

/// No path occurs twice.
pub open spec fn paths_unique(artifacts: Seq<(Path, Code)>) -> bool {
    forall|i: int, j: int|
        0 <= i < artifacts.len() && 0 <= j < artifacts.len() && #[trigger] artifacts[i].0@
            == #[trigger] artifacts[j].0@ ==> i == j
}

/// The artifacts as a map from path to code text.
pub open spec fn artifacts_map(artifacts: Seq<(Path, Code)>) -> Map<Seq<char>, Seq<char>> {
    Map::new(
        |k: Seq<char>| exists|i: int| has_path_at(artifacts, k, i),
        |k: Seq<char>| code_text(artifacts[choose|i: int| has_path_at(artifacts, k, i)].1),
    )
}

/// What `add` keeps under a path, `take_string` gives back; afterwards the receiver holds
/// what it held before the `add`, apart from that path.
pub proof fn lemma_take_returns_added(
    before: Map<Seq<char>, Seq<char>>,
    path: Seq<char>,
    text: Seq<char>,
)
    ensures
        before.insert(path, text).dom().contains(path),
        before.insert(path, text)[path] == text,
        before.insert(path, text).remove(path) == before.remove(path),
{
    assert(before.insert(path, text).remove(path) =~= before.remove(path));
}

/// With unique paths, the entry with path `k` at `i` gives the code of `k`.
proof fn lemma_map_at(artifacts: Seq<(Path, Code)>, i: int)
    requires
        paths_unique(artifacts),
        0 <= i < artifacts.len(),
    ensures
        artifacts_map(artifacts).dom().contains(artifacts[i].0@),
        artifacts_map(artifacts)[artifacts[i].0@] == code_text(artifacts[i].1),
{
    let k = artifacts[i].0@;
    assert(has_path_at(artifacts, k, i));
    let j = choose|j: int| has_path_at(artifacts, k, j);
    assert(artifacts[j].0@ == artifacts[i].0@);
}

impl DefaultCodeReceiver {
    #[verifier::type_invariant]
    spec fn inv(self) -> bool {
        paths_unique(self.artifacts@)
    }

    /// The code received and not yet taken, by path.
    pub closed spec fn view(&self) -> Map<Seq<char>, Seq<char>> {
        artifacts_map(self.artifacts@)
    }

    /// The index of the artifact with the given path, if there is one.
    fn find(artifacts: &Vec<(Path, Code)>, path: &Path) -> (r: Option<usize>)
        ensures
            r matches Some(i) ==> has_path_at(artifacts@, path@, i as int),
            r is None ==> forall|i: int| !has_path_at(artifacts@, path@, i),
    {
        let mut i: usize = 0;
        while i < artifacts.len()
            invariant
                0 <= i <= artifacts@.len(),
                forall|j: int| 0 <= j < i ==> !has_path_at(artifacts@, path@, j),
            decreases artifacts@.len() - i,
        {
            if artifacts[i].0.is_equal(path) {
                return Some(i);
            }
            i += 1;
        }
        None
    }

    /// Takes the code received for the given path: `Some` with its text (and the code is no
    /// longer kept), or `None` if there is no code for that path.
    pub fn take_string(&mut self, path: &Path) -> (r: Result<Option<String>, LqError>)
        ensures
            old(self)@.dom().contains(path@) ==> (r matches Ok(Some(s)) && s@ == old(self)@[path@]),
            !old(self)@.dom().contains(path@) ==> r matches Ok(None),
            final(self)@ == old(self)@.remove(path@),
    {
        proof {
            use_type_invariant(&*self);
        }
        let ghost before = self.artifacts@;
        let mut artifacts: Vec<(Path, Code)> = Vec::new();
        std::mem::swap(&mut artifacts, &mut self.artifacts);
        match DefaultCodeReceiver::find(&artifacts, path) {
            Some(i) => {
                let (_, code) = artifacts.remove(i);
                proof {
                    lemma_map_at(before, i as int);
                    let after = artifacts@;
                    assert(after =~= before.remove(i as int));
                    assert forall|a: int, b: int|
                        0 <= a < after.len() && 0 <= b < after.len() && #[trigger] after[a].0@
                            == #[trigger] after[b].0@ implies a == b by {
                        let a0 = if a < i { a } else { a + 1 };
                        let b0 = if b < i { b } else { b + 1 };
                        assert(before[a0].0@ == before[b0].0@);
                    }
                    assert forall|k: Seq<char>|
                        artifacts_map(after).dom().contains(k) <==> artifacts_map(
                            before,
                        ).remove(path@).dom().contains(k) by {
                        if artifacts_map(after).dom().contains(k) {
                            let a = choose|a: int| has_path_at(after, k, a);
                            let a0 = if a < i { a } else { a + 1 };
                            assert(has_path_at(before, k, a0));
                        }
                        if artifacts_map(before).remove(path@).dom().contains(k) {
                            let b = choose|b: int| has_path_at(before, k, b);
                            assert(b != i);
                            let b1 = if b < i { b } else { b - 1 };
                            assert(has_path_at(after, k, b1));
                        }
                    }
                    assert forall|k: Seq<char>|
                        #[trigger] artifacts_map(after).dom().contains(k) implies artifacts_map(
                            after,
                        )[k] == artifacts_map(before)[k] by {
                        let a = choose|a: int| has_path_at(after, k, a);
                        let a0 = if a < i { a } else { a + 1 };
                        lemma_map_at(after, a);
                        lemma_map_at(before, a0);
                    }
                    assert(artifacts_map(after) =~= artifacts_map(before).remove(path@));
                }
                self.artifacts = artifacts;
                match code {
                    Code::String(s) => Ok(Some(s)),
                }
            },
            None => {
                proof {
                    assert(artifacts_map(before).remove(path@) =~= artifacts_map(before));
                }
                self.artifacts = artifacts;
                Ok(None)
            },
        }
    }
}

impl Default for DefaultCodeReceiver {
    fn default() -> (r: DefaultCodeReceiver)
        ensures
            r@ == Map::<Seq<char>, Seq<char>>::empty(),
    {
        let r = DefaultCodeReceiver { artifacts: Vec::new() };
        assert(r@ =~= Map::<Seq<char>, Seq<char>>::empty());
        r
    }
}

impl CodeReceiver for DefaultCodeReceiver {
    /// Keeps the code under the given path (replacing code kept under that path before).
    fn add(&mut self, path: Path, code: Code)
        ensures
            final(self)@ == old(self)@.insert(path@, code_text(code)),
    {
        proof {
            use_type_invariant(&*self);
        }
        let ghost before = self.artifacts@;
        let ghost key = path@;
        let ghost text = code_text(code);
        let mut artifacts: Vec<(Path, Code)> = Vec::new();
        std::mem::swap(&mut artifacts, &mut self.artifacts);
        match DefaultCodeReceiver::find(&artifacts, &path) {
            Some(i) => {
                artifacts.set(i, (path, code));
                proof {
                    let after = artifacts@;
                    assert(after =~= before.update(i as int, after[i as int]));
                    assert forall|a: int, b: int|
                        0 <= a < after.len() && 0 <= b < after.len() && #[trigger] after[a].0@
                            == #[trigger] after[b].0@ implies a == b by {
                        assert(before[a].0@ == before[b].0@);
                    }
                    assert forall|k: Seq<char>|
                        artifacts_map(after).dom().contains(k) <==> artifacts_map(before).insert(
                            key,
                            text,
                        ).dom().contains(k) by {
                        if artifacts_map(after).dom().contains(k) {
                            let a = choose|a: int| has_path_at(after, k, a);
                            assert(has_path_at(before, k, a));
                        }
                        if artifacts_map(before).dom().contains(k) {
                            let b = choose|b: int| has_path_at(before, k, b);
                            assert(has_path_at(after, k, b));
                        }
                        if k == key {
                            assert(has_path_at(after, k, i as int));
                        }
                    }
                    assert forall|k: Seq<char>|
                        #[trigger] artifacts_map(after).dom().contains(k) implies artifacts_map(
                            after,
                        )[k] == artifacts_map(before).insert(key, text)[k] by {
                        let a = choose|a: int| has_path_at(after, k, a);
                        lemma_map_at(after, a);
                        if k != key {
                            lemma_map_at(before, a);
                        }
                    }
                    assert(artifacts_map(after) =~= artifacts_map(before).insert(key, text));
                }
                self.artifacts = artifacts;
            },
            None => {
                artifacts.push((path, code));
                proof {
                    let after = artifacts@;
                    let n = before.len() as int;
                    assert(after =~= before.push(after[n]));
                    assert forall|a: int, b: int|
                        0 <= a < after.len() && 0 <= b < after.len() && #[trigger] after[a].0@
                            == #[trigger] after[b].0@ implies a == b by {
                        if a < n && b < n {
                            assert(before[a].0@ == before[b].0@);
                        } else if a < n {
                            assert(has_path_at(before, key, a));
                        } else if b < n {
                            assert(has_path_at(before, key, b));
                        }
                    }
                    assert forall|k: Seq<char>|
                        artifacts_map(after).dom().contains(k) <==> artifacts_map(before).insert(
                            key,
                            text,
                        ).dom().contains(k) by {
                        if artifacts_map(after).dom().contains(k) {
                            let a = choose|a: int| has_path_at(after, k, a);
                            if a < n {
                                assert(has_path_at(before, k, a));
                            }
                        }
                        if artifacts_map(before).dom().contains(k) {
                            let b = choose|b: int| has_path_at(before, k, b);
                            assert(has_path_at(after, k, b));
                        }
                        if k == key {
                            assert(has_path_at(after, k, n));
                        }
                    }
                    assert forall|k: Seq<char>|
                        #[trigger] artifacts_map(after).dom().contains(k) implies artifacts_map(
                            after,
                        )[k] == artifacts_map(before).insert(key, text)[k] by {
                        let a = choose|a: int| has_path_at(after, k, a);
                        lemma_map_at(after, a);
                        if k != key {
                            lemma_map_at(before, a);
                        }
                    }
                    assert(artifacts_map(after) =~= artifacts_map(before).insert(key, text));
                }
                self.artifacts = artifacts;
            },
        }
    }
}

} // verus!
