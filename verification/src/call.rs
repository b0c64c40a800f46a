use vstd::prelude::*;
use crate::binding::PengBinded;
use crate::error::PengError;
use crate::frame::PengFrame;
use crate::function::PengBytecodeFunctionParams;
use crate::utils::PengHeapPtr;

verus! {

/// A runtime value held directly: nil, a number, a boolean, or a reference to a heap
/// value. Floating-point values are held by their IEEE-754 bits.
#[derive(Debug, Clone, Copy, PartialEq, Eq, Structural)]
pub enum PengCell {
    Nil,
    Int(isize),
    Uint(usize),
    Float32(u32),
    Float64(u64),
    Byte(u8),
    Bool(bool),
    Reference(PengHeapPtr),
}

/// What the heap holds at a called reference, as far as a call needs to know: a native
/// function, a bytecode function with its parameters, another value, or nothing.
#[derive(Debug, Clone, Copy)]
pub enum PengCallee {
    Native,
    Bytecode(PengBytecodeFunctionParams),
    NotAFunction,
    Missing,
}

/// The stack of values and the stack of frames of a running thread.
pub struct PengCallStack {
    pub stack: Vec<PengBinded<PengCell>>,
    pub frames: Vec<PengFrame>,
}

/// What a call leaves to do: nothing, or, for a variadic function, to store the extra
/// arguments in a new vector on the heap and finish the call with it.
pub enum PengCallOutcome {
    Entered,
    NeedsRest { function: PengHeapPtr, base: usize, fixed_count: usize, rest: Vec<PengBinded<PengCell>> },
}

/// The first `count` arguments, nil for each one missing.
pub open spec fn padded_args(args: Seq<PengBinded<PengCell>>, count: nat) -> Seq<PengBinded<PengCell>> {
    Seq::new(count, |i: int| if i < args.len() { args[i] } else { PengBinded::Mutable(PengCell::Nil) })
}

/// The arguments past the first `count`, if there are any.
pub open spec fn rest_args(args: Seq<PengBinded<PengCell>>, count: nat) -> Seq<PengBinded<PengCell>> {
    if args.len() > count {
        args.skip(count as int)
    } else {
        Seq::empty()
    }
}

/// Where the called value stands: below the `args_count` arguments on top of the stack.
pub open spec fn call_base(stack: Seq<PengBinded<PengCell>>, args_count: usize) -> int {
    stack.len() - args_count - 1
}

pub(crate) fn copy_cell(c: &PengBinded<PengCell>) -> (res: PengBinded<PengCell>)
    ensures
        res == *c,
{
    match c {
        PengBinded::Mutable(v) => PengBinded::Mutable(*v),
        PengBinded::Immutable(v) => PengBinded::Immutable(*v),
    }
}

/// The frame a call pushes.
fn call_frame(function: PengHeapPtr, base: usize, params_count: usize, is_try: bool) -> (res: PengFrame)
    ensures
        res.fresh(function, base, params_count, is_try, None),
{
    if is_try {
        PengFrame::new_try(function, base, params_count)
    } else {
        PengFrame::new(function, base, params_count)
    }
}

/// The reference a call with `args_count` arguments calls: the value below the arguments.
pub fn call_target(thread: &PengCallStack, args_count: usize) -> (res: Result<PengHeapPtr, PengError>)
    requires
        args_count < usize::MAX,
    ensures
        thread.stack@.len() < args_count + 1 ==> res matches Err(PengError::StackUnderflow),
        thread.stack@.len() >= args_count + 1 ==> match thread.stack@[call_base(thread.stack@, args_count)].bound() {
            PengCell::Reference(p) => res == Ok::<PengHeapPtr, PengError>(p),
            _ => res matches Err(PengError::ExpectedReference),
        },
{
    let n = thread.stack.len();
    if n < args_count + 1 {
        return Err(PengError::StackUnderflow);
    }
    match thread.stack[n - args_count - 1].value() {
        PengCell::Reference(p) => Ok(*p),
        _ => Err(PengError::ExpectedReference),
    }
}

/// Calls the value below the `args_count` arguments on top of the stack, which the heap
/// holds as `callee`. A native function keeps all the arguments; a bytecode function
/// gets exactly as many as it takes, nil for each one missing, and a variadic one gets
/// the rest afterwards as a vector (see `finish_variadic_call`). The called value leaves
/// the stack, and a frame starts where it stood.
pub fn execute_function_call(
    thread: &mut PengCallStack,
    callee: PengCallee,
    args_count: usize,
    is_try: bool,
) -> (res: Result<PengCallOutcome, PengError>)
    requires
        args_count < usize::MAX,
    ensures
        ({
            let s = old(thread).stack@;
            let base = call_base(s, args_count);
            let args = s.skip(base + 1);
            if s.len() < args_count + 1 {
                res matches Err(PengError::StackUnderflow) && *final(thread) == *old(thread)
            } else {
                match s[base].bound() {
                    PengCell::Reference(p) => match callee {
                        PengCallee::Missing => res == Err::<PengCallOutcome, PengError>(PengError::HeapValueNotFound(p))
                            && *final(thread) == *old(thread),
                        PengCallee::NotAFunction => res matches Err(PengError::ExpectedFunction) && *final(thread)
                            == *old(thread),
                        PengCallee::Native => res matches Ok(PengCallOutcome::Entered) && final(thread).stack@
                            == s.remove(base) && final(thread).frames@.len() == old(thread).frames@.len() + 1
                            && final(thread).frames@.drop_last() == old(thread).frames@
                            && final(thread).frames@.last().fresh(p, base as usize, args_count, is_try, None),
                        PengCallee::Bytecode(PengBytecodeFunctionParams::Fixed(k)) => res matches Ok(
                            PengCallOutcome::Entered,
                        ) && final(thread).stack@ == s.take(base) + padded_args(args, k as nat)
                            && final(thread).frames@.len() == old(thread).frames@.len() + 1
                            && final(thread).frames@.drop_last() == old(thread).frames@
                            && final(thread).frames@.last().fresh(p, base as usize, k, is_try, None),
                        PengCallee::Bytecode(PengBytecodeFunctionParams::Variadic(k)) => res matches Ok(
                            PengCallOutcome::NeedsRest { function, base: b, fixed_count, rest },
                        ) && function == p && b == base && fixed_count == k && rest@ == rest_args(args, k as nat)
                            && final(thread).stack@ == s.take(base) + padded_args(args, k as nat)
                            && final(thread).frames@ == old(thread).frames@,
                    },
                    _ => res matches Err(PengError::ExpectedReference) && *final(thread) == *old(thread),
                }
            }
        }),
{
    let function = match call_target(thread, args_count) {
        Ok(p) => p,
        Err(e) => return Err(e),
    };
    let n = thread.stack.len();
    let base = n - args_count - 1;
    let params = match callee {
        PengCallee::Missing => return Err(PengError::HeapValueNotFound(function)),
        PengCallee::NotAFunction => return Err(PengError::ExpectedFunction),
        PengCallee::Native => {
            let _ = thread.stack.remove(base);
            thread.frames.push(call_frame(function, base, args_count, is_try));
            return Ok(PengCallOutcome::Entered);
        },
        PengCallee::Bytecode(params) => params,
    };
    let ghost s = thread.stack@;
    let mut args: Vec<PengBinded<PengCell>> = Vec::new();
    let mut i: usize = base + 1;
    while i < n
        invariant
            base + 1 <= i <= n,
            n == s.len(),
            thread.stack@ == s,
            thread.frames@ == old(thread).frames@,
            args@ == s.subrange(base + 1, i as int),
        decreases n - i,
    {
        args.push(copy_cell(&thread.stack[i]));
        assert(args@ =~= s.subrange(base + 1, i + 1));
        i = i + 1;
    }
    assert(args@ =~= s.skip(base + 1));
    thread.stack.truncate(base);
    let count = match params {
        PengBytecodeFunctionParams::Fixed(k) => k,
        PengBytecodeFunctionParams::Variadic(k) => k,
    };
    let mut j: usize = 0;
    while j < count
        invariant
            j <= count,
            thread.frames@ == old(thread).frames@,
            thread.stack@ == s.take(base as int) + padded_args(args@, count as nat).take(j as int),
        decreases count - j,
    {
        let arg = if j < args.len() {
            copy_cell(&args[j])
        } else {
            PengBinded::Mutable(PengCell::Nil)
        };
        thread.stack.push(arg);
        assert(thread.stack@ =~= s.take(base as int) + padded_args(args@, count as nat).take(j + 1));
        j = j + 1;
    }
    assert(padded_args(args@, count as nat).take(count as int) =~= padded_args(args@, count as nat));
    match params {
        PengBytecodeFunctionParams::Fixed(k) => {
            thread.frames.push(call_frame(function, base, k, is_try));
            Ok(PengCallOutcome::Entered)
        },
        PengBytecodeFunctionParams::Variadic(k) => {
            let mut rest: Vec<PengBinded<PengCell>> = Vec::new();
            let mut r: usize = k;
            while r < args.len()
                invariant
                    k <= r <= args@.len() || (r == k && k > args@.len()),
                    r >= k,
                    thread.frames@ == old(thread).frames@,
                    thread.stack@ == s.take(base as int) + padded_args(args@, count as nat),
                    args@.len() > k ==> rest@ == args@.subrange(k as int, r as int),
                    args@.len() <= k ==> rest@ == Seq::<PengBinded<PengCell>>::empty(),
                decreases args@.len() - r,
            {
                rest.push(copy_cell(&args[r]));
                assert(rest@ =~= args@.subrange(k as int, r + 1));
                r = r + 1;
            }
            proof {
                if args@.len() > k {
                    assert(rest@ =~= args@.skip(k as int));
                }
            }
            Ok(PengCallOutcome::NeedsRest { function, base, fixed_count: k, rest })
        },
    }
}

/// Finishes a call of a variadic function once its extra arguments are stored in the
/// vector at `vector`: the reference to it goes on the stack as a last parameter, and the
/// frame starts.
pub fn finish_variadic_call(
    thread: &mut PengCallStack,
    function: PengHeapPtr,
    base: usize,
    fixed_count: usize,
    vector: PengHeapPtr,
    is_try: bool,
)
    requires
        fixed_count < usize::MAX,
    ensures
        final(thread).stack@ == old(thread).stack@.push(PengBinded::Mutable(PengCell::Reference(vector))),
        final(thread).frames@.len() == old(thread).frames@.len() + 1,
        final(thread).frames@.drop_last() == old(thread).frames@,
        final(thread).frames@.last().fresh(function, base, (fixed_count + 1) as usize, is_try, None),
{
    thread.stack.push(PengBinded::Mutable(PengCell::Reference(vector)));
    thread.frames.push(call_frame(function, base, fixed_count + 1, is_try));
}

} // verus!
