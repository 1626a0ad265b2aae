//! The state of the engine between frames, and what a frame has to do.

use crate::descriptors::MAX_FRAMES_IN_FLIGHT;
use crate::image::{BarrierMasks, ImageBarrier};
use crate::utils::formats::default_subresource_range;
#[allow(unused_imports)]
use crate::utils::formats::default_range;
use crate::vk::{
    Extent2D, ACCESS_COLOR_ATTACHMENT_WRITE, ACCESS_NONE, ERROR_OUT_OF_DATE,
    LAYOUT_COLOR_ATTACHMENT_OPTIMAL, LAYOUT_PRESENT_SRC, LAYOUT_UNDEFINED,
    PIPELINE_STAGE_BOTTOM_OF_PIPE, PIPELINE_STAGE_COLOR_ATTACHMENT_OUTPUT, QUEUE_FAMILY_IGNORED,
    SAMPLES_1, SAMPLES_4, SUBOPTIMAL,
};
use vstd::hash_map::StringHashMap;
use vstd::prelude::*;

verus! {

/// The number of samples for each pixel.
pub const NUM_MSAA_SAMPLES: u32 = SAMPLES_4;

/// A key is held down, or is not.
#[derive(Clone, Copy, PartialEq, Eq, Structural, Debug)]
pub enum ElementState {
    Pressed,
    Released,
}

/// A key, as the keyboard layout has it.
pub enum LogicalKey {
    /// A key that types a character.
    Character(String),
    Escape,
    F11,
    Other,
}

/// What is known of the keys.
pub struct KeyInput {
    states: StringHashMap<ElementState>,
}

impl KeyInput {
    /// The last state of each key that was used.
    pub closed spec fn view(self) -> Map<Seq<char>, ElementState> {
        self.states@
    }

    /// No key was used.
    pub fn new() -> (input: Self)
        ensures
            input@ == Map::<Seq<char>, ElementState>::empty(),
    {
        KeyInput { states: StringHashMap::new() }
    }

    /// The state of a key; keys that were not used are released.
    pub open spec fn state_of(self, key: Seq<char>) -> ElementState {
        if self@.contains_key(key) {
            self@[key]
        } else {
            ElementState::Released
        }
    }

    /// The state of a key.
    pub fn get_key_state(&self, key: &str) -> (state: ElementState)
        ensures
            state == self.state_of(key@),
    {
        match self.states.get(key) {
            Some(state) => *state,
            None => ElementState::Released,
        }
    }

    /// A key is held down.
    pub fn is_key_pressed(&self, key: &str) -> (pressed: bool)
        ensures
            pressed == (self.state_of(key@) == ElementState::Pressed),
    {
        self.get_key_state(key) == ElementState::Pressed
    }

    /// Takes note of a key, where it types a character.
    pub fn notify_keyboard_input(&mut self, key: &LogicalKey, state: ElementState)
        ensures
            final(self)@ == (match *key {
                LogicalKey::Character(c) => old(self)@.insert(c@, state),
                _ => old(self)@,
            }),
    {
        match key {
            LogicalKey::Character(c) => {
                self.states.insert(c.clone(), state);
            },
            _ => {},
        }
    }
}

/// A key has the state that was last noted, and noting one key leaves the others alone.
pub proof fn last_state_counts(
    before: KeyInput,
    after: KeyInput,
    key: Seq<char>,
    state: ElementState,
    other: Seq<char>,
)
    requires
        after@ == before@.insert(key, state),
    ensures
        after.state_of(key) == state,
        other != key ==> after.state_of(other) == before.state_of(other),
{
}

/// How far a frame has come: what it waits for.
#[derive(Clone, Copy, PartialEq, Eq, Structural, Debug)]
pub enum FrameStage {
    /// The start of the next frame.
    Idle,
    /// A new swapchain, because the window changed its size.
    Resizing,
    /// The updates of the level and of the game.
    Updating,
    /// The end of the frame that used the same resources before.
    Waiting,
    /// The updates of the buffers that the graphics card reads.
    UpdatingGpu,
    /// An image of the swapchain.
    Acquiring,
    /// A new swapchain, because the old one had no image to give.
    Abandoning,
    /// The commands that draw to an image.
    Drawing(u32),
    /// The graphics card, which takes the commands.
    Submitting(u32),
    /// The surface, which takes the image.
    Presenting(u32),
    /// A new swapchain, because the old one does not fit the surface any more.
    Replacing,
}

/// What became of the last action of a frame.
#[derive(Clone, Copy, PartialEq, Eq, Structural, Debug)]
pub enum FrameEvent {
    /// A frame is to be shown.
    Start,
    /// The action is done.
    Done,
    /// The swapchain gave an image.
    Image(u32),
    /// The action failed.
    Failed(i32),
}

/// What a frame does next.
#[derive(Clone, Copy, PartialEq, Eq, Structural, Debug)]
pub enum FrameAction {
    RecreateSwapchain,
    /// Update the level and the game.
    Update,
    /// Wait until the resources of the frame are not used any more.
    WaitForFrame(u32),
    /// Update the buffers of the frame.
    UpdateGpu(u32),
    /// Ask for an image.
    AcquireImage(u32),
    /// Record the commands of the frame, which draw to the image.
    Draw { frame: u32, image: u32 },
    /// Hand the commands of the frame to the graphics card.
    Submit(u32),
    /// Show the image on the surface.
    Present { frame: u32, image: u32 },
    /// Nothing more: the frame is over.
    Finish,
    /// Nothing more: the frame failed.
    Fail(i32),
}

/// The state of the engine between the actions of a frame.
#[derive(Clone, Copy, PartialEq, Eq, Structural, Debug)]
pub struct FrameState {
    pub stage: FrameStage,
    pub frame_index: u32,
    pub window_size: Extent2D,
    pub window_resized: bool,
}

/// The event can come at this stage: frames start when the last one is over, images are given
/// where one was asked for, and any action may fail.
pub open spec fn expected(stage: FrameStage, event: FrameEvent) -> bool {
    match event {
        FrameEvent::Start => stage is Idle,
        FrameEvent::Done => !(stage is Idle) && !(stage is Acquiring),
        FrameEvent::Image(_) => stage is Acquiring,
        FrameEvent::Failed(_) => !(stage is Idle),
    }
}

/// The stage that follows where the last action did what it should.
pub open spec fn next_stage(state: FrameState, event: FrameEvent) -> FrameStage {
    match state.stage {
        FrameStage::Idle => if state.window_resized {
            FrameStage::Resizing
        } else {
            FrameStage::Updating
        },
        FrameStage::Resizing => FrameStage::Updating,
        FrameStage::Updating => FrameStage::Waiting,
        FrameStage::Waiting => FrameStage::UpdatingGpu,
        FrameStage::UpdatingGpu => FrameStage::Acquiring,
        FrameStage::Acquiring => FrameStage::Drawing(event->Image_0),
        FrameStage::Drawing(image) => FrameStage::Submitting(image),
        FrameStage::Submitting(image) => FrameStage::Presenting(image),
        FrameStage::Abandoning | FrameStage::Presenting(_) | FrameStage::Replacing => FrameStage::Idle,
    }
}

/// The stage that follows an error: a swapchain that is out of date is replaced, and every other
/// error ends the frame.
pub open spec fn stage_after_error(stage: FrameStage, error: i32) -> FrameStage {
    match stage {
        FrameStage::Acquiring => if error == ERROR_OUT_OF_DATE {
            FrameStage::Abandoning
        } else {
            FrameStage::Idle
        },
        FrameStage::Presenting(_) => if error == ERROR_OUT_OF_DATE || error == SUBOPTIMAL {
            FrameStage::Replacing
        } else {
            FrameStage::Idle
        },
        _ => FrameStage::Idle,
    }
}

/// The stage that an event leads to.
pub open spec fn stage_after(state: FrameState, event: FrameEvent) -> FrameStage {
    match event {
        FrameEvent::Failed(error) => stage_after_error(state.stage, error),
        _ => next_stage(state, event),
    }
}

/// The event ends a frame whose image was presented.
pub open spec fn ends_presented(stage: FrameStage, event: FrameEvent) -> bool {
    event is Done && (stage is Presenting || stage is Replacing)
}

/// The state that an event leads to: a frame whose image was presented hands over to the next
/// one, and the start of a frame takes note of the size of the window.
pub open spec fn state_after(state: FrameState, event: FrameEvent) -> FrameState {
    FrameState {
        stage: stage_after(state, event),
        frame_index: if ends_presented(state.stage, event) {
            next_frame(state.frame_index) as u32
        } else {
            state.frame_index
        },
        window_resized: state.window_resized && !(event is Start),
        ..state
    }
}

/// What a frame does at a stage.
pub open spec fn action_at(stage: FrameStage, frame: u32, event: FrameEvent) -> FrameAction {
    match stage {
        FrameStage::Resizing | FrameStage::Abandoning | FrameStage::Replacing => FrameAction::RecreateSwapchain,
        FrameStage::Updating => FrameAction::Update,
        FrameStage::Waiting => FrameAction::WaitForFrame(frame),
        FrameStage::UpdatingGpu => FrameAction::UpdateGpu(frame),
        FrameStage::Acquiring => FrameAction::AcquireImage(frame),
        FrameStage::Drawing(image) => FrameAction::Draw { frame, image },
        FrameStage::Submitting(_) => FrameAction::Submit(frame),
        FrameStage::Presenting(image) => FrameAction::Present { frame, image },
        FrameStage::Idle => match event {
            FrameEvent::Failed(error) => FrameAction::Fail(error),
            _ => FrameAction::Finish,
        },
    }
}

impl FrameState {
    /// The frame is one of those in flight.
    pub open spec fn wf(self) -> bool {
        self.frame_index < MAX_FRAMES_IN_FLIGHT
    }

    /// The state before the first frame.
    pub fn new(window_size: Extent2D) -> (state: Self)
        ensures
            state == (FrameState {
                stage: FrameStage::Idle,
                frame_index: 0,
                window_size,
                window_resized: false,
            }),
            state.wf(),
    {
        FrameState { stage: FrameStage::Idle, frame_index: 0, window_size, window_resized: false }
    }

    /// The size of the window changes.
    pub fn notify_window_resize(&mut self, width: u32, height: u32)
        ensures
            *final(self) == (if old(self).window_size == (Extent2D { width, height }) {
                *old(self)
            } else {
                FrameState {
                    window_size: Extent2D { width, height },
                    window_resized: true,
                    ..*old(self)
                }
            }),
    {
        let window_size = Extent2D { width, height };
        if self.window_size == window_size {
            return;
        }
        self.window_size = window_size;
        self.window_resized = true;
    }

    /// Goes on with a frame, once its last action came to an end.
    pub fn main_loop(&mut self, event: FrameEvent) -> (action: FrameAction)
        requires
            old(self).wf(),
            expected(old(self).stage, event),
        ensures
            final(self).wf(),
            *final(self) == state_after(*old(self), event),
            action == action_at(final(self).stage, old(self).frame_index, event),
    {
        let frame: u32 = self.frame_index;
        if let FrameEvent::Failed(error) = event {
            return self.fail(error);
        }
        match self.stage {
            FrameStage::Idle => {
                if self.window_resized {
                    self.window_resized = false;
                    self.stage = FrameStage::Resizing;
                    FrameAction::RecreateSwapchain
                } else {
                    self.stage = FrameStage::Updating;
                    FrameAction::Update
                }
            },
            FrameStage::Resizing => {
                self.stage = FrameStage::Updating;
                FrameAction::Update
            },
            FrameStage::Updating => {
                self.stage = FrameStage::Waiting;
                FrameAction::WaitForFrame(frame)
            },
            FrameStage::Waiting => {
                self.stage = FrameStage::UpdatingGpu;
                FrameAction::UpdateGpu(frame)
            },
            FrameStage::UpdatingGpu => {
                self.stage = FrameStage::Acquiring;
                FrameAction::AcquireImage(frame)
            },
            FrameStage::Acquiring => {
                let image: u32 = match event {
                    FrameEvent::Image(image) => image,
                    _ => 0,
                };
                self.stage = FrameStage::Drawing(image);
                FrameAction::Draw { frame, image }
            },
            FrameStage::Drawing(image) => {
                self.stage = FrameStage::Submitting(image);
                FrameAction::Submit(frame)
            },
            FrameStage::Submitting(image) => {
                self.stage = FrameStage::Presenting(image);
                FrameAction::Present { frame, image }
            },
            FrameStage::Abandoning => {
                self.stage = FrameStage::Idle;
                FrameAction::Finish
            },
            FrameStage::Presenting(_) | FrameStage::Replacing => {
                self.stage = FrameStage::Idle;
                self.frame_index = (self.frame_index + 1) % MAX_FRAMES_IN_FLIGHT as u32;
                FrameAction::Finish
            },
        }
    }

    /// Goes on after an error.
    fn fail(&mut self, error: i32) -> (action: FrameAction)
        requires
            old(self).wf(),
            !(old(self).stage is Idle),
        ensures
            *final(self) == state_after(*old(self), FrameEvent::Failed(error)),
            action == action_at(
                final(self).stage,
                old(self).frame_index,
                FrameEvent::Failed(error),
            ),
    {
        match self.stage {
            FrameStage::Acquiring if error == ERROR_OUT_OF_DATE => {
                self.stage = FrameStage::Abandoning;
                FrameAction::RecreateSwapchain
            },
            FrameStage::Presenting(_) if error == ERROR_OUT_OF_DATE || error == SUBOPTIMAL => {
                self.stage = FrameStage::Replacing;
                FrameAction::RecreateSwapchain
            },
            _ => {
                self.stage = FrameStage::Idle;
                FrameAction::Fail(error)
            },
        }
    }
}

/// The state after some events.
pub open spec fn state_after_all(state: FrameState, events: Seq<FrameEvent>) -> FrameState
    decreases events.len(),
{
    if events.len() == 0 {
        state
    } else {
        state_after(state_after_all(state, events.drop_last()), events.last())
    }
}

/// Every one of the events can come after those before it.
pub open spec fn all_expected(state: FrameState, events: Seq<FrameEvent>) -> bool
    decreases events.len(),
{
    events.len() == 0 || (all_expected(state, events.drop_last()) && expected(
        state_after_all(state, events.drop_last()).stage,
        events.last(),
    ))
}

/// The last image that was given.
pub open spec fn last_image(events: Seq<FrameEvent>) -> Option<u32>
    decreases events.len(),
{
    if events.len() == 0 {
        None
    } else {
        match events.last() {
            FrameEvent::Image(image) => Some(image),
            _ => last_image(events.drop_last()),
        }
    }
}

/// The image that is drawn to, submitted or presented.
pub open spec fn image_at(stage: FrameStage) -> Option<u32> {
    match stage {
        FrameStage::Drawing(image) => Some(image),
        FrameStage::Submitting(image) => Some(image),
        FrameStage::Presenting(image) => Some(image),
        _ => None,
    }
}

/// A frame draws to the image that it was given, and presents that image.
pub proof fn presents_the_image_given(state: FrameState, events: Seq<FrameEvent>)
    requires
        state.stage is Idle,
        all_expected(state, events),
    ensures
        image_at(state_after_all(state, events).stage) is Some ==> image_at(
            state_after_all(state, events).stage,
        ) == last_image(events),
    decreases events.len(),
{
    if events.len() > 0 {
        presents_the_image_given(state, events.drop_last());
    }
}

/// The number of frames whose image was presented.
pub open spec fn frames_presented(state: FrameState, events: Seq<FrameEvent>) -> nat
    decreases events.len(),
{
    if events.len() == 0 {
        0
    } else {
        frames_presented(state, events.drop_last()) + (if ends_presented(
            state_after_all(state, events.drop_last()).stage,
            events.last(),
        ) {
            1nat
        } else {
            0
        })
    }
}

/// The frames in flight take turns with every image that is presented, and with nothing else:
/// a frame that is given up, or fails, is tried again with the same resources.
pub proof fn turns_follow_presented_frames(state: FrameState, events: Seq<FrameEvent>)
    requires
        state.wf(),
    ensures
        state_after_all(state, events).wf(),
        state_after_all(state, events).frame_index == (state.frame_index + frames_presented(
            state,
            events,
        )) % (MAX_FRAMES_IN_FLIGHT as int),
    decreases events.len(),
{
    if events.len() > 0 {
        turns_follow_presented_frames(state, events.drop_last());
    }
}

/// A window that changes its size gets a new swapchain with the next frame, whatever happens
/// until then.
pub proof fn resize_is_noticed(state: FrameState, events: Seq<FrameEvent>)
    requires
        state.window_resized,
        all_expected(state, events),
        forall|i: int| 0 <= i < events.len() ==> !(#[trigger] events[i] is Start),
    ensures
        state_after_all(state, events).window_resized,
        expected(state_after_all(state, events).stage, FrameEvent::Start) ==> state_after(
            state_after_all(state, events),
            FrameEvent::Start,
        ).stage is Resizing,
    decreases events.len(),
{
    if events.len() > 0 {
        assert forall|i: int| 0 <= i < events.drop_last().len() implies !(
        #[trigger] events.drop_last()[i] is Start) by {
            assert(events.drop_last()[i] == events[i]);
        }
        resize_is_noticed(state, events.drop_last());
        assert(!(events[events.len() - 1] is Start));
    }
}

/// The frame that follows in turn.
pub open spec fn next_frame(frame: u32) -> int {
    (frame + 1) % (MAX_FRAMES_IN_FLIGHT as int)
}

/// The frames take turns: a frame comes back after as many frames as there are in flight, and
/// not before.
pub proof fn frames_take_turns(frame: u32)
    requires
        frame < MAX_FRAMES_IN_FLIGHT,
    ensures
        next_frame(frame) != frame,
        next_frame(next_frame(frame) as u32) == frame,
{
}

/// Where the colours of a frame are drawn to.
#[derive(Clone, Copy, PartialEq, Eq, Structural, Debug)]
pub enum ColourTarget {
    /// To the image of the swapchain, which is stored.
    Swapchain,
    /// To an image with several samples, which are averaged into the image of the swapchain.
    Resolve,
}

/// Where the colours of a frame are drawn to, with a number of samples for each pixel.
pub fn colour_target(samples: u32) -> (target: ColourTarget)
    ensures
        target == (if samples == SAMPLES_1 {
            ColourTarget::Swapchain
        } else {
            ColourTarget::Resolve
        }),
{
    if samples == SAMPLES_1 {
        ColourTarget::Swapchain
    } else {
        ColourTarget::Resolve
    }
}

/// The transition of the image of the swapchain before it is drawn to.
pub open spec fn drawing_barrier() -> ImageBarrier {
    ImageBarrier {
        old_layout: LAYOUT_UNDEFINED,
        new_layout: LAYOUT_COLOR_ATTACHMENT_OPTIMAL,
        src_queue_family_index: QUEUE_FAMILY_IGNORED,
        dst_queue_family_index: QUEUE_FAMILY_IGNORED,
        masks: BarrierMasks {
            src_access_mask: ACCESS_NONE,
            dst_access_mask: ACCESS_COLOR_ATTACHMENT_WRITE,
            src_stage_mask: PIPELINE_STAGE_COLOR_ATTACHMENT_OUTPUT,
            dst_stage_mask: PIPELINE_STAGE_COLOR_ATTACHMENT_OUTPUT,
        },
        subresource: default_range(),
    }
}

/// The transition of the image of the swapchain before it is presented.
pub open spec fn presenting_barrier() -> ImageBarrier {
    ImageBarrier {
        old_layout: LAYOUT_COLOR_ATTACHMENT_OPTIMAL,
        new_layout: LAYOUT_PRESENT_SRC,
        src_queue_family_index: QUEUE_FAMILY_IGNORED,
        dst_queue_family_index: QUEUE_FAMILY_IGNORED,
        masks: BarrierMasks {
            src_access_mask: ACCESS_COLOR_ATTACHMENT_WRITE,
            dst_access_mask: ACCESS_NONE,
            src_stage_mask: PIPELINE_STAGE_COLOR_ATTACHMENT_OUTPUT,
            dst_stage_mask: PIPELINE_STAGE_BOTTOM_OF_PIPE,
        },
        subresource: default_range(),
    }
}

/// The transition of the image of the swapchain before it is drawn to.
pub fn to_drawing() -> (barrier: ImageBarrier)
    ensures
        barrier == drawing_barrier(),
{
    ImageBarrier {
        old_layout: LAYOUT_UNDEFINED,
        new_layout: LAYOUT_COLOR_ATTACHMENT_OPTIMAL,
        src_queue_family_index: QUEUE_FAMILY_IGNORED,
        dst_queue_family_index: QUEUE_FAMILY_IGNORED,
        masks: BarrierMasks {
            src_access_mask: ACCESS_NONE,
            dst_access_mask: ACCESS_COLOR_ATTACHMENT_WRITE,
            src_stage_mask: PIPELINE_STAGE_COLOR_ATTACHMENT_OUTPUT,
            dst_stage_mask: PIPELINE_STAGE_COLOR_ATTACHMENT_OUTPUT,
        },
        subresource: default_subresource_range(),
    }
}

/// The transition of the image of the swapchain before it is presented.
pub fn to_presenting() -> (barrier: ImageBarrier)
    ensures
        barrier == presenting_barrier(),
{
    ImageBarrier {
        old_layout: LAYOUT_COLOR_ATTACHMENT_OPTIMAL,
        new_layout: LAYOUT_PRESENT_SRC,
        src_queue_family_index: QUEUE_FAMILY_IGNORED,
        dst_queue_family_index: QUEUE_FAMILY_IGNORED,
        masks: BarrierMasks {
            src_access_mask: ACCESS_COLOR_ATTACHMENT_WRITE,
            dst_access_mask: ACCESS_NONE,
            src_stage_mask: PIPELINE_STAGE_COLOR_ATTACHMENT_OUTPUT,
            dst_stage_mask: PIPELINE_STAGE_BOTTOM_OF_PIPE,
        },
        subresource: default_subresource_range(),
    }
}

/// The image is presented from the layout that it is drawn in, once it is written.
pub proof fn presenting_follows_drawing()
    ensures
        presenting_barrier().old_layout == drawing_barrier().new_layout,
        presenting_barrier().masks.src_access_mask == drawing_barrier().masks.dst_access_mask,
        presenting_barrier().masks.src_stage_mask == drawing_barrier().masks.dst_stage_mask,
{
}

/// What the engine does when an event comes.
pub open spec fn does(state: FrameState, event: FrameEvent) -> FrameAction {
    action_at(state_after(state, event).stage, state.frame_index, event)
}

/// A frame updates the level and the game, waits until its resources are free, updates its
/// buffers, asks for an image, draws to it, submits and presents it, in this order and each with
/// the resources of its turn; then the next frame has its turn. Where the window changed its size,
/// the swapchain is made anew before all that.
pub proof fn frames_go_in_order(state: FrameState, image: u32)
    requires
        state.stage is Idle,
        state.wf(),
    ensures
        ({
            let frame = state.frame_index;
            let s0 = if state.window_resized {
                state_after(state, FrameEvent::Start)
            } else {
                state
            };
            let first = if state.window_resized {
                FrameEvent::Done
            } else {
                FrameEvent::Start
            };
            let s1 = state_after(s0, first);
            let s2 = state_after(s1, FrameEvent::Done);
            let s3 = state_after(s2, FrameEvent::Done);
            let s4 = state_after(s3, FrameEvent::Done);
            let s5 = state_after(s4, FrameEvent::Image(image));
            let s6 = state_after(s5, FrameEvent::Done);
            let s7 = state_after(s6, FrameEvent::Done);
            let s8 = state_after(s7, FrameEvent::Done);
            &&& state.window_resized ==> does(state, FrameEvent::Start)
                == FrameAction::RecreateSwapchain
            &&& does(s0, first) == FrameAction::Update
            &&& does(s1, FrameEvent::Done) == FrameAction::WaitForFrame(frame)
            &&& does(s2, FrameEvent::Done) == FrameAction::UpdateGpu(frame)
            &&& does(s3, FrameEvent::Done) == FrameAction::AcquireImage(frame)
            &&& does(s4, FrameEvent::Image(image)) == FrameAction::Draw { frame, image }
            &&& does(s5, FrameEvent::Done) == FrameAction::Submit(frame)
            &&& does(s6, FrameEvent::Done) == FrameAction::Present { frame, image }
            &&& does(s7, FrameEvent::Done) == FrameAction::Finish
            &&& s8.stage is Idle
            &&& s8.frame_index != frame
            &&& s8.frame_index < 2
            &&& s8.window_size == state.window_size
            &&& !s8.window_resized
        }),
{
    frames_take_turns(state.frame_index);
}

/// A swapchain that is out of date is made anew, and the frame is over: one that got no image is
/// tried again with the same resources, and one that was presented is not. Every other error ends
/// the frame and is reported as it is, and the same resources are used again.
pub proof fn errors_end_the_frame(state: FrameState, error: i32)
    requires
        state.wf(),
        !(state.stage is Idle),
    ensures
        ({
            let out_of_date = error == -1000001004;
            let suboptimal = error == 1000001003;
            let after = state_after(state, FrameEvent::Failed(error));
            let over = state_after(after, FrameEvent::Done);
            let replaced = state.stage is Acquiring && out_of_date || state.stage is Presenting && (
            out_of_date || suboptimal);
            &&& after.frame_index == state.frame_index
            &&& replaced ==> does(state, FrameEvent::Failed(error))
                == FrameAction::RecreateSwapchain && does(after, FrameEvent::Done)
                == FrameAction::Finish && over.stage is Idle && (over.frame_index
                == state.frame_index <==> state.stage is Acquiring)
            &&& !replaced ==> does(state, FrameEvent::Failed(error)) == FrameAction::Fail(error)
                && after.stage is Idle
        }),
{
    frames_take_turns(state.frame_index);
}

/// The image of a swapchain is drawn to in the layout for colours, whatever it held before, and
/// shown in the layout for presenting; all of it is, and no queue family is named.
pub proof fn swapchain_images_change_layout()
    ensures
        drawing_barrier().old_layout == 0,
        drawing_barrier().new_layout == 2,
        presenting_barrier().new_layout == 1000001002,
        drawing_barrier().subresource == presenting_barrier().subresource,
        drawing_barrier().src_queue_family_index == 0xffff_ffff,
        drawing_barrier().dst_queue_family_index == 0xffff_ffff,
        presenting_barrier().src_queue_family_index == 0xffff_ffff,
        presenting_barrier().dst_queue_family_index == 0xffff_ffff,
        drawing_barrier().masks.src_access_mask == 0,
        drawing_barrier().masks.dst_access_mask == 0x100,
        drawing_barrier().masks.dst_stage_mask == 0x400,
        presenting_barrier().masks.dst_access_mask == 0,
        presenting_barrier().masks.dst_stage_mask == 0x2000,
{
}

} // verus!
