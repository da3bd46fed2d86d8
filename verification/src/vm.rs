//! A small stack machine, compiled to Brainfuck.

use vstd::prelude::*;

verus! {

/// An instruction of the stack machine.
#[derive(Debug)]
pub enum Instruction {
    /// Adds the number to the top of the stack.
    Increment(u8),
    /// Pushes the number onto the stack.
    Push(u8),
    /// Adds the two topmost numbers. It compiles to nothing yet.
    Add,
}

/// A Brainfuck command.
#[derive(Debug, PartialEq, Eq, Structural)]
pub enum BFCode {
    MoveRight,
    MoveLeft,
    Increment,
    Decrement,
    Input,
    Output,
    LoopStart,
    LoopEnd,
}

/// `count` increments in a row.
pub open spec fn increments(count: nat) -> Seq<BFCode> {
    Seq::new(count, |i: int| BFCode::Increment)
}

/// The Brainfuck code of one instruction: an increment by `n` is `n`
/// increments of the current cell, and a push of `n` moves to the next cell
/// and increments it `n` times.
pub open spec fn instruction_code(instruction: Instruction) -> Seq<BFCode> {
    match instruction {
        Instruction::Increment(n) => increments(n as nat),
        Instruction::Push(n) => seq![BFCode::MoveRight] + increments(n as nat),
        Instruction::Add => Seq::empty(),
    }
}

/// The Brainfuck code of a program: the code of its instructions, in order.
pub open spec fn program_code(program: Seq<Instruction>) -> Seq<BFCode>
    decreases program.len(),
{
    if program.len() == 0 {
        Seq::empty()
    } else {
        program_code(program.drop_last()) + instruction_code(program.last())
    }
}

/// Appends `count` increments to the code.
fn push_increments(brainfuck: &mut Vec<BFCode>, count: u8)
    ensures
        final(brainfuck)@ == old(brainfuck)@ + increments(count as nat),
{
    let mut done: u8 = 0;
    while done < count
        invariant
            done <= count,
            brainfuck@ == old(brainfuck)@ + increments(done as nat),
        decreases count - done,
    {
        brainfuck.push(BFCode::Increment);
        done += 1;
        assert(brainfuck@ =~= old(brainfuck)@ + increments(done as nat));
    }
}

/// Compiles a program of the stack machine to Brainfuck.
pub fn instruction_to_brainfuck(program: Vec<Instruction>) -> (brainfuck: Vec<BFCode>)
    ensures
        brainfuck@ == program_code(program@),
{
    let mut brainfuck: Vec<BFCode> = Vec::new();
    let mut i: usize = 0;
    while i < program.len()
        invariant
            i <= program.len(),
            brainfuck@ == program_code(program@.take(i as int)),
        decreases program.len() - i,
    {
        proof {
            assert(program@.take(i + 1).drop_last() =~= program@.take(i as int));
        }
        match &program[i] {
            Instruction::Increment(n) => {
                push_increments(&mut brainfuck, *n);
            },
            Instruction::Push(n) => {
                brainfuck.push(BFCode::MoveRight);
                push_increments(&mut brainfuck, *n);
                assert(brainfuck@ =~= program_code(program@.take(i as int)) + (
                seq![BFCode::MoveRight] + increments(*n as nat)));
            },
            Instruction::Add => {
                assert(brainfuck@ =~= program_code(program@.take(i as int)) + Seq::<
                    BFCode,
                >::empty());
            },
        }
        i += 1;
    }
    proof {
        assert(program@.take(i as int) =~= program@);
    }
    brainfuck
}

} // verus!
