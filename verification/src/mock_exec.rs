use vstd::prelude::*;

verus! {

/// A planned child process for tests: its exit code and its output streams.
pub struct MockChild {
    pub exit: i32,
    pub stdout: Vec<u8>,
    pub stderr: Vec<u8>,
}

pub type MockChildV = (i32, Seq<u8>, Seq<u8>);

impl View for MockChild {
    type V = MockChildV;

    open spec fn view(&self) -> MockChildV {
        (self.exit, self.stdout@, self.stderr@)
    }
}

/// The test-time process substrate: hands out planned children in order
/// instead of spawning real processes.
pub struct MockCommandCreator {
    pub children: Vec<Result<MockChild, String>>,
}

pub open spec fn children_view(cs: Seq<Result<MockChild, String>>) -> Seq<
    Result<MockChildV, Seq<char>>,
> {
    Seq::new(
        cs.len(),
        |i: int|
            match cs[i] {
                Ok(c) => Ok(c@),
                Err(e) => Err(e@),
            },
    )
}

impl MockCommandCreator {
    pub open spec fn view(&self) -> Seq<Result<MockChildV, Seq<char>>> {
        children_view(self.children@)
    }

    /// A substrate with no planned children.
    pub fn new() -> (r: MockCommandCreator)
        ensures
            r@ == Seq::<Result<MockChildV, Seq<char>>>::empty(),
    {
        let r = MockCommandCreator { children: Vec::new() };
        proof {
            assert(r@ =~= Seq::<Result<MockChildV, Seq<char>>>::empty());
        }
        r
    }

    /// Plan the next spawn: it will yield `child`.
    pub fn next_command_spawns(&mut self, child: Result<MockChild, String>)
        ensures
            final(self)@ == old(self)@.push(
                match child {
                    Ok(c) => Ok(c@),
                    Err(e) => Err(e@),
                },
            ),
    {
        let ghost pre = self@;
        let ghost cv: Result<MockChildV, Seq<char>> = match child {
            Ok(ref c) => Ok(c@),
            Err(ref e) => Err(e@),
        };
        self.children.push(child);
        proof {
            assert(self@ =~= pre.push(cv));
        }
    }

    /// Spawn: hand out the earliest planned child, or nothing when no more
    /// were planned.
    pub fn spawn(&mut self) -> (r: Option<Result<MockChild, String>>)
        ensures
            old(self)@.len() == 0 ==> r is None && final(self)@ == old(self)@,
            old(self)@.len() > 0 ==> final(self)@ == old(self)@.drop_first() && (
            r matches Some(c) && (match c {
                Ok(ch) => old(self)@.first() == Ok::<MockChildV, Seq<char>>(ch@),
                Err(e) => old(self)@.first() == Err::<MockChildV, Seq<char>>(e@),
            })),
    {
        let ghost pre = self@;
        if self.children.len() == 0 {
            proof {
                assert(self@ =~= pre);
            }
            return None;
        }
        let c = self.children.remove(0);
        proof {
            assert(self@ =~= pre.drop_first());
        }
        Some(c)
    }

    /// How many planned children remain.
    pub fn remaining(&self) -> (r: usize)
        ensures
            r == self@.len(),
    {
        self.children.len()
    }
}

/// Plan the next spawn of `creator` for a test.
pub fn next_command(creator: &mut MockCommandCreator, child: Result<MockChild, String>)
    ensures
        final(creator)@ == old(creator)@.push(
            match child {
                Ok(c) => Ok(c@),
                Err(e) => Err(e@),
            },
        ),
{
    creator.next_command_spawns(child);
}

/// A fresh test-time process substrate.
pub fn new_creator() -> (r: MockCommandCreator)
    ensures
        r@ == Seq::<Result<MockChildV, Seq<char>>>::empty(),
{
    MockCommandCreator::new()
}

} // verus!
