use crate::curve::{copy_of, refined, subdivide, subdivided};
use crate::drawing::{Line, Point};
use crate::render::{clear_canvas, clear_ops, display, frame, segments, DrawOp};
use vstd::prelude::*;

verus! {

/// Corner-cutting passes of one animation, each shown as one frame.
pub const STEPS: usize = 7;

/// Milliseconds for which each frame of an animation stays on the canvas.
pub const FRAME_DELAY_MS: u64 = 500;

/// What `running` reports when the user asks to leave.
pub const EXIT_MESSAGE: &'static str = "Exiting...";

/// The keys that the interface tells apart.
#[derive(Clone, Copy, Debug, PartialEq, Eq, Structural)]
pub enum Key {
    Escape,
    Return,
    Space,
    C,
    Other,
}

/// The mouse buttons that the interface tells apart.
#[derive(Clone, Copy, Debug, PartialEq, Eq, Structural)]
pub enum Button {
    Left,
    Other,
}

/// An input event, as the window hands it over.
#[derive(Clone, Copy, Debug, PartialEq, Eq, Structural)]
pub enum Input {
    /// The window was closed.
    Quit,
    /// A key went down.
    KeyDown(Key),
    /// A mouse button went down at the position (`x`, `y`).
    MouseDown { button: Button, x: i32, y: i32 },
    /// Anything else.
    Other,
}

/// What the interface does about an input event.
#[derive(Clone, Copy, Debug, PartialEq, Eq, Structural)]
pub enum Command {
    /// Leave the program.
    Exit,
    /// Place a control point at the position (`x`, `y`).
    AddPoint { x: i32, y: i32 },
    /// Start the animation from the control points.
    Animate,
    /// Empty the canvas. The control points stay.
    Clear,
    /// Nothing.
    Ignore,
}

/// The command that an input event stands for: closing the window or Escape
/// leaves, a left click places a control point, Return starts the animation,
/// Space or C empties the canvas, and everything else is ignored.
pub open spec fn command_of(input: Input) -> Command {
    match input {
        Input::Quit => Command::Exit,
        Input::KeyDown(Key::Escape) => Command::Exit,
        Input::KeyDown(Key::Return) => Command::Animate,
        Input::KeyDown(Key::Space) => Command::Clear,
        Input::KeyDown(Key::C) => Command::Clear,
        Input::KeyDown(Key::Other) => Command::Ignore,
        Input::MouseDown { button: Button::Left, x, y } => Command::AddPoint { x, y },
        Input::MouseDown { button: Button::Other, .. } => Command::Ignore,
        Input::Other => Command::Ignore,
    }
}

/// The command that an input event stands for.
pub fn decide(input: &Input) -> (command: Command)
    ensures
        command == command_of(*input),
{
    match input {
        Input::Quit => Command::Exit,
        Input::KeyDown(key) => match key {
            Key::Escape => Command::Exit,
            Key::Return => Command::Animate,
            Key::Space => Command::Clear,
            Key::C => Command::Clear,
            Key::Other => Command::Ignore,
        },
        Input::MouseDown { button, x, y } => match button {
            Button::Left => Command::AddPoint { x: *x, y: *y },
            Button::Other => Command::Ignore,
        },
        Input::Other => Command::Ignore,
    }
}

/// What the interface holds: the control points in the order in which the
/// user placed them, the curve of the animation as far as it has got, and the
/// passes that the animation still has to make.
pub struct InterfaceView {
    pub points: Seq<Point>,
    pub polyline: Seq<Point>,
    pub steps: nat,
}

impl InterfaceView {
    /// The interface at startup.
    pub open spec fn empty() -> InterfaceView {
        InterfaceView { points: Seq::empty(), polyline: Seq::empty(), steps: 0 }
    }

    /// The interface with one more control point, at the position (`x`, `y`).
    pub open spec fn with_point(self, x: i32, y: i32) -> InterfaceView {
        InterfaceView { points: self.points.push(Point { x, y, ctrl: true }), ..self }
    }

    /// The interface without its control points.
    pub open spec fn without_points(self) -> InterfaceView {
        InterfaceView { points: Seq::empty(), ..self }
    }

    /// The interface once the animation has been asked for. With three
    /// control points or more the animation starts over from a copy of them.
    /// With fewer there is nothing to animate.
    pub open spec fn animated(self) -> InterfaceView {
        if self.points.len() >= 3 {
            InterfaceView { polyline: self.points, steps: STEPS as nat, ..self }
        } else {
            self
        }
    }

    /// What is drawn when the animation is asked for: two control points are
    /// shown at once with the segment between them, as they are.
    pub open spec fn animated_ops(self) -> Seq<DrawOp> {
        if self.points.len() == 2 {
            frame(self.points, Some(self.points))
        } else {
            Seq::empty()
        }
    }

    /// The interface after the next pass of a running animation.
    pub open spec fn advanced(self) -> InterfaceView {
        if self.steps > 0 {
            InterfaceView { polyline: subdivided(self.polyline), steps: (self.steps - 1) as nat, ..self }
        } else {
            self
        }
    }

    /// The frame that the next pass of a running animation shows: the canvas
    /// is emptied, then the control points and the curve after the pass are
    /// drawn.
    pub open spec fn advanced_ops(self) -> Seq<DrawOp> {
        clear_ops() + frame(self.points, Some(subdivided(self.polyline)))
    }

    /// The interface after the command `c`.
    pub open spec fn after(self, c: Command) -> InterfaceView {
        match c {
            Command::AddPoint { x, y } => self.with_point(x, y),
            Command::Animate => self.animated(),
            Command::Exit | Command::Clear | Command::Ignore => self,
        }
    }

    /// What is drawn for the command `c`.
    pub open spec fn drawn(self, c: Command) -> Seq<DrawOp> {
        match c {
            Command::AddPoint { x, y } => frame(self.with_point(x, y).points, None),
            Command::Animate => self.animated_ops(),
            Command::Clear => clear_ops(),
            Command::Exit | Command::Ignore => Seq::empty(),
        }
    }
}

/// The interface after `frames` calls for the next frame.
pub open spec fn after_frames(v: InterfaceView, frames: nat) -> InterfaceView
    decreases frames,
{
    if frames == 0 {
        v
    } else {
        after_frames(v, (frames - 1) as nat).advanced()
    }
}

/// Where a run of input events ends: the interface after them, what was drawn
/// for them, and whether one of them asked to leave.
pub struct Outcome {
    pub state: InterfaceView,
    pub ops: Seq<DrawOp>,
    pub quit: bool,
}

/// The outcome of the input events `inputs`, handled in order from the
/// interface `v` on. The first event that asks to leave ends the run: the
/// events after it are not looked at.
pub open spec fn run(v: InterfaceView, inputs: Seq<Input>) -> Outcome
    decreases inputs.len(),
{
    if inputs.len() == 0 {
        Outcome { state: v, ops: Seq::empty(), quit: false }
    } else {
        let before = run(v, inputs.drop_last());
        let c = command_of(inputs.last());
        if before.quit {
            before
        } else if c == Command::Exit {
            Outcome { quit: true, ..before }
        } else {
            Outcome { state: before.state.after(c), ops: before.ops + before.state.drawn(c), quit: false }
        }
    }
}

/// The state of the interaction with the user.
pub struct Interface {
    points: Vec<Point>,
    polyline: Vec<Point>,
    steps: usize,
}

impl View for Interface {
    type V = InterfaceView;

    closed spec fn view(&self) -> InterfaceView {
        InterfaceView { points: self.points@, polyline: self.polyline@, steps: self.steps as nat }
    }
}

impl Interface {
    /// An interface without control points, in which no animation runs.
    pub fn new() -> (interface: Self)
        ensures
            interface@ == InterfaceView::empty(),
    {
        Interface { points: Vec::new(), polyline: Vec::new(), steps: 0 }
    }

    /// The control points, in the order in which they were placed.
    pub fn get_points(&self) -> (points: &Vec<Point>)
        ensures
            points@ == self@.points,
    {
        &self.points
    }

    /// The curve of the animation, as far as it has got.
    pub fn get_polyline(&self) -> (polyline: &Vec<Point>)
        ensures
            polyline@ == self@.polyline,
    {
        &self.polyline
    }

    /// The passes that the animation still has to make.
    pub fn steps_left(&self) -> (steps: usize)
        ensures
            steps == self@.steps,
    {
        self.steps
    }

    /// The requests that empty the canvas. The control points stay.
    pub fn clear(&self) -> (ops: Vec<DrawOp>)
        ensures
            ops@ == clear_ops(),
    {
        clear_canvas()
    }

    /// Forgets the control points. The canvas stays as it is.
    pub fn clear_points(&mut self)
        ensures
            final(self)@ == old(self)@.without_points(),
    {
        self.points.clear();
    }

    /// Places a control point at the position (`x`, `y`), behind those that
    /// are there, and gives the requests that show the control points again.
    pub fn add_point(&mut self, x: i32, y: i32) -> (ops: Vec<DrawOp>)
        ensures
            final(self)@ == old(self)@.with_point(x, y),
            ops@ == frame(final(self)@.points, None),
    {
        self.points.push(Point::new(x, y, true));
        self.display(None)
    }

    /// The requests that show the control points, each with its marker, and
    /// over them the segments of `polyline`, where there is one.
    pub fn display(&self, polyline: Option<&Vec<Point>>) -> (ops: Vec<DrawOp>)
        ensures
            ops@ == frame(
                self@.points,
                match polyline {
                    Some(p) => Some(p@),
                    None => None,
                },
            ),
    {
        display(&self.points, polyline)
    }

    /// Asks for the animation. With three control points or more it starts
    /// over from a copy of them, and `next_frame` then gives its frames one by
    /// one. Two control points are shown at once with the segment between
    /// them. The control points themselves stay as they are, so asking again
    /// replays the animation from the same points; an animation that has
    /// shown its last frame does not start again by itself.
    pub fn animate(&mut self) -> (ops: Vec<DrawOp>)
        ensures
            final(self)@ == old(self)@.animated(),
            ops@ == old(self)@.animated_ops(),
            final(self)@.points == old(self)@.points,
    {
        let n = self.points.len();
        if n >= 3 {
            self.polyline = copy_of(&self.points);
            self.steps = STEPS;
            Vec::new()
        } else if n == 2 {
            display(&self.points, Some(&self.points))
        } else {
            Vec::new()
        }
    }

    /// Makes the next pass of a running animation and gives its frame. Gives
    /// `None`, and changes nothing, where no animation runs.
    pub fn next_frame(&mut self) -> (shown: Option<Vec<DrawOp>>)
        ensures
            final(self)@ == old(self)@.advanced(),
            old(self)@.steps == 0 ==> shown is None,
            old(self)@.steps > 0 ==> shown is Some && shown->Some_0@ == old(self)@.advanced_ops(),
    {
        if self.steps == 0 {
            return None;
        }
        self.polyline = subdivide(&self.polyline);
        self.steps = self.steps - 1;
        let mut ops = clear_canvas();
        let mut shown = display(&self.points, Some(&self.polyline));
        ops.append(&mut shown);
        Some(ops)
    }

    /// Handles one input event: changes the interface as the event's command
    /// says and gives what is to be drawn for it. An event that asks to leave
    /// gives the exit message instead.
    pub fn handle(&mut self, input: &Input) -> (r: Result<Vec<DrawOp>, String>)
        ensures
            final(self)@ == old(self)@.after(command_of(*input)),
            r is Err <==> command_of(*input) == Command::Exit,
            r matches Ok(ops) ==> ops@ == old(self)@.drawn(command_of(*input)),
            r matches Err(msg) ==> msg@ == EXIT_MESSAGE@,
    {
        match decide(input) {
            Command::Exit => Err(EXIT_MESSAGE.to_owned()),
            Command::AddPoint { x, y } => Ok(self.add_point(x, y)),
            Command::Animate => Ok(self.animate()),
            Command::Clear => Ok(self.clear()),
            Command::Ignore => Ok(Vec::new()),
        }
    }

    /// Handles the pending input events in order and gives what is to be
    /// drawn for them. The first event that asks to leave ends the run with
    /// the exit message: the events after it are not looked at.
    pub fn running(&mut self, events: &Vec<Input>) -> (r: Result<Vec<DrawOp>, String>)
        ensures
            final(self)@ == run(old(self)@, events@).state,
            r is Err <==> run(old(self)@, events@).quit,
            r matches Ok(ops) ==> ops@ == run(old(self)@, events@).ops,
            r matches Err(msg) ==> msg@ == EXIT_MESSAGE@,
    {
        let mut ops: Vec<DrawOp> = Vec::new();
        let mut i: usize = 0;
        while i < events.len()
            invariant
                i <= events.len(),
                !run(old(self)@, events@.take(i as int)).quit,
                self@ == run(old(self)@, events@.take(i as int)).state,
                ops@ == run(old(self)@, events@.take(i as int)).ops,
            decreases events.len() - i,
        {
            proof {
                assert(events@.take(i + 1).drop_last() == events@.take(i as int));
            }
            match self.handle(&events[i]) {
                Ok(mut more) => {
                    ops.append(&mut more);
                },
                Err(msg) => {
                    proof {
                        lemma_run_ends_at_exit(old(self)@, events@, i + 1);
                    }
                    return Err(msg);
                },
            }
            i += 1;
        }
        proof {
            assert(events@.take(events.len() as int) == events@);
        }
        Ok(ops)
    }
}

/// Once an input event has asked to leave, the events after it change nothing.
pub proof fn lemma_run_ends_at_exit(v: InterfaceView, inputs: Seq<Input>, k: int)
    requires
        0 <= k <= inputs.len(),
        run(v, inputs.take(k)).quit,
    ensures
        run(v, inputs) == run(v, inputs.take(k)),
    decreases inputs.len(),
{
    if k == inputs.len() {
        assert(inputs.take(k) == inputs);
    } else {
        assert(inputs.drop_last().take(k) == inputs.take(k));
        lemma_run_ends_at_exit(v, inputs.drop_last(), k);
    }
}

/// Two control points are shown as the one segment between them: the
/// animation does not start, and no point is put between the two.
pub proof fn lemma_pair_is_one_segment(v: InterfaceView)
    requires
        v.points.len() == 2,
    ensures
        v.animated() == v,
        subdivided(v.points) == v.points,
        v.animated_ops() == frame(v.points, Some(v.points)),
        segments(v.points) == seq![DrawOp::DrawLine(Line { a: v.points[0], b: v.points[1] })],
{
    assert(segments(v.points) =~= seq![DrawOp::DrawLine(Line { a: v.points[0], b: v.points[1] })]);
}

/// Emptying the canvas forgets nothing: whatever was placed before is still
/// there for the animation that is asked for afterwards.
pub proof fn lemma_clear_keeps_points(v: InterfaceView, inputs: Seq<Input>, key: Key)
    requires
        key == Key::Space || key == Key::C,
        !run(v, inputs).quit,
    ensures
        run(v, inputs.push(Input::KeyDown(key))).state == run(v, inputs).state,
        run(v, inputs.push(Input::KeyDown(key))).ops == run(v, inputs).ops + clear_ops(),
        run(v, inputs.push(Input::KeyDown(key)).push(Input::KeyDown(Key::Return))).state == run(
            v,
            inputs,
        ).state.animated(),
{
    let cleared = inputs.push(Input::KeyDown(key));
    assert(cleared.drop_last() == inputs);
    assert(cleared.push(Input::KeyDown(Key::Return)).drop_last() == cleared);
}

/// An animation shows the control points in each of its frames as they are,
/// and leaves them as they are.
pub proof fn lemma_animation_keeps_points(v: InterfaceView)
    ensures
        v.animated().points == v.points,
        v.advanced().points == v.points,
        v.steps > 0 ==> v.advanced_ops() == clear_ops() + frame(v.points, Some(v.advanced().polyline)),
{
}

/// An animation makes one pass for each frame: after `frames` of its frames
/// the curve is the control points after as many passes, and after the last
/// frame it has come to rest. The control points stay as they are throughout.
pub proof fn lemma_animation_makes_its_passes(v: InterfaceView, frames: nat)
    requires
        v.points.len() >= 3,
        frames <= STEPS,
    ensures
        after_frames(v.animated(), frames).points == v.points,
        after_frames(v.animated(), frames).polyline == refined(v.points, frames),
        after_frames(v.animated(), frames).steps == STEPS - frames,
    decreases frames,
{
    if frames > 0 {
        lemma_animation_makes_its_passes(v, (frames - 1) as nat);
    }
}

} // verus!
