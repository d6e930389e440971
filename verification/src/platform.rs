//! The platform command channel: the commands that the code of the user
//! interface sends to the host window, and the handle it sends them with.
//!
//! A handle has up to two ways to the host: the proxy of the host's event
//! loop, and a plain channel for code that runs where the proxy cannot be
//! had. A command goes the first way where there is one, the second way
//! otherwise, and nowhere, without an error, where there is neither.

use vstd::prelude::*;
use crate::channels::{broadcast_resubscribe, proxy_send, unbounded_send};
use crate::events::window_moved::WindowMovedData;
use crate::geometry::{PhysicalPosition, PhysicalSize, Point2D, Size2D};

verus! {

#[verifier::external_type_specification]
#[verifier::external_body]
pub struct ExCursorIcon(winit::window::CursorIcon);

#[verifier::external_type_specification]
#[verifier::external_body]
pub struct ExResizeDirection(winit::window::ResizeDirection);

#[verifier::external_type_specification]
#[verifier::external_body]
pub struct ExTemplate(dioxus_core::Template);

#[verifier::external_type_specification]
#[verifier::external_body]
pub struct ExActionRequestEvent(accesskit_winit::ActionRequestEvent);

/// A command for the host, or a notice to it.
#[derive(Debug)]
pub enum EventMessage {
    /// Update the given template
    UpdateTemplate(dioxus_core::Template),
    /// Poll the virtual tree
    PollVDOM,
    /// Request a rerender
    RequestRerender,
    /// Remeasure a group of text elements
    RemeasureTextGroup(u128),
    /// Change the cursor icon
    SetCursorIcon(winit::window::CursorIcon),
    /// Accessibility action request event
    ActionRequestEvent(accesskit_winit::ActionRequestEvent),
    /// Focus the node of the given accessibility identity
    FocusAccessibilityNode(u64),
    /// Focus the next accessibility node
    FocusNextAccessibilityNode,
    /// Focus the previous accessibility node
    FocusPrevAccessibilityNode,
    /// Trigger window dragging
    DragWindow,
    /// Trigger window resize dragging
    DragResizeWindow(winit::window::ResizeDirection),
    /// Set the window size
    SetWindowSize(Size2D),
    /// Set the window position
    SetWindowPosition(Point2D),
    /// Set the window size and position
    SetWindowSizeAndPosition(Size2D, Point2D),
    /// The window was moved
    WindowMoved(WindowMovedData),
    /// Close the whole app
    ExitApp,
}

impl From<accesskit_winit::ActionRequestEvent> for EventMessage {
    fn from(value: accesskit_winit::ActionRequestEvent) -> (message: Self) {
        Self::ActionRequestEvent(value)
    }
}

impl vstd::std_specs::convert::FromSpecImpl<accesskit_winit::ActionRequestEvent> for EventMessage {
    open spec fn obeys_from_spec() -> bool {
        true
    }

    open spec fn from_spec(value: accesskit_winit::ActionRequestEvent) -> Self {
        EventMessage::ActionRequestEvent(value)
    }
}

/// Why a command did not reach the host.
#[derive(PartialEq, Eq, Debug, Clone, Copy, Structural)]
pub enum UsePlatformError {
    /// The event loop of the host is gone.
    EventLoopProxyFailed,
    /// The receiving end of the plain channel is gone.
    PlatformEmitterFailed,
}

/// The way a handle sends its commands.
#[derive(PartialEq, Eq, Debug, Clone, Copy, Structural)]
pub enum Transport {
    /// Through the proxy of the host's event loop.
    Proxy,
    /// Through the plain channel.
    Emitter,
    /// Nowhere: the handle was made before the platform was attached.
    Detached,
}

/// What a send comes to, given the way it went and whether the message was
/// taken: success when it was taken, and when there was no way to send it at
/// all; the error of the way it went otherwise.
pub open spec fn spec_send_result(transport: Transport, taken: bool) -> Result<(), UsePlatformError> {
    match transport {
        Transport::Detached => Ok(()),
        Transport::Proxy => if taken {
            Ok(())
        } else {
            Err(UsePlatformError::EventLoopProxyFailed)
        },
        Transport::Emitter => if taken {
            Ok(())
        } else {
            Err(UsePlatformError::PlatformEmitterFailed)
        },
    }
}

/// What a send comes to, given the way it went and whether the message was
/// taken.
pub fn send_result(transport: Transport, taken: bool) -> (result: Result<(), UsePlatformError>)
    ensures
        result == spec_send_result(transport, taken),
{
    match transport {
        Transport::Detached => Ok(()),
        Transport::Proxy => if taken {
            Ok(())
        } else {
            Err(UsePlatformError::EventLoopProxyFailed)
        },
        Transport::Emitter => if taken {
            Ok(())
        } else {
            Err(UsePlatformError::PlatformEmitterFailed)
        },
    }
}

/// The handle with which the code of the user interface reaches the host.
pub struct UsePlatform {
    ticker: tokio::sync::broadcast::Receiver<()>,
    event_loop_proxy: Option<winit::event_loop::EventLoopProxy<EventMessage>>,
    platform_emitter: Option<tokio::sync::mpsc::UnboundedSender<EventMessage>>,
}

impl UsePlatform {
    /// The way this handle sends its commands: the proxy where it has one,
    /// else the plain channel where it has one.
    pub closed spec fn spec_transport(&self) -> Transport {
        if self.event_loop_proxy is Some {
            Transport::Proxy
        } else if self.platform_emitter is Some {
            Transport::Emitter
        } else {
            Transport::Detached
        }
    }

    /// A handle with the given ways to the host, either of which may be
    /// missing, and the given subscription to the ticks of the host.
    pub fn new(
        event_loop_proxy: Option<winit::event_loop::EventLoopProxy<EventMessage>>,
        platform_emitter: Option<tokio::sync::mpsc::UnboundedSender<EventMessage>>,
        ticker: tokio::sync::broadcast::Receiver<()>,
    ) -> (platform: Self)
        ensures
            platform.spec_transport() == if event_loop_proxy is Some {
                Transport::Proxy
            } else if platform_emitter is Some {
                Transport::Emitter
            } else {
                Transport::Detached
            },
    {
        UsePlatform { ticker, event_loop_proxy, platform_emitter }
    }

    /// The way this handle sends its commands.
    pub fn transport(&self) -> (transport: Transport)
        ensures
            transport == self.spec_transport(),
    {
        if self.event_loop_proxy.is_some() {
            Transport::Proxy
        } else if self.platform_emitter.is_some() {
            Transport::Emitter
        } else {
            Transport::Detached
        }
    }

    /// Sends a command to the host: through the proxy where the handle has
    /// one, else through the plain channel where it has one. A handle without
    /// either drops the command and reports success. Otherwise the send
    /// succeeds when the other end takes the command, and fails with the
    /// error of the way it went when the other end is gone.
    pub fn send(&self, event: EventMessage) -> (result: Result<(), UsePlatformError>)
        ensures
            result == spec_send_result(self.spec_transport(), true) || result == spec_send_result(
                self.spec_transport(),
                false,
            ),
            self.spec_transport() is Detached ==> result is Ok,
    {
        match &self.event_loop_proxy {
            Some(event_loop_proxy) => {
                let sent = proxy_send(event_loop_proxy, event);
                send_result(Transport::Proxy, sent.is_ok())
            },
            None => match &self.platform_emitter {
                Some(platform_emitter) => {
                    let sent = unbounded_send(platform_emitter, event);
                    send_result(Transport::Emitter, sent.is_ok())
                },
                None => Ok(()),
            },
        }
    }

    /// Asks the host for another cursor icon. A command that cannot be
    /// delivered is given up.
    pub fn set_cursor(&self, cursor_icon: winit::window::CursorIcon) {
        let _ = self.send(EventMessage::SetCursorIcon(cursor_icon));
    }

    /// Asks the host to start dragging the window.
    pub fn drag_window(&self) {
        let _ = self.send(EventMessage::DragWindow);
    }

    /// Asks the host to start resizing the window by dragging.
    pub fn drag_resize_window(&self, resize_direction: winit::window::ResizeDirection) {
        let _ = self.send(EventMessage::DragResizeWindow(resize_direction));
    }

    /// Asks the host to resize the window.
    pub fn set_window_size(&self, window_size: Size2D) {
        let _ = self.send(EventMessage::SetWindowSize(window_size));
    }

    /// Asks the host to move the window.
    pub fn set_window_position(&self, window_position: Point2D) {
        let _ = self.send(EventMessage::SetWindowPosition(window_position));
    }

    /// Asks the host to resize and move the window.
    pub fn set_window_size_and_position(&self, window_size: Size2D, window_position: Point2D) {
        let _ = self.send(EventMessage::SetWindowSizeAndPosition(window_size, window_position));
    }

    /// Asks the host for another frame.
    pub fn request_animation_frame(&self) {
        let _ = self.send(EventMessage::RequestRerender);
    }

    /// A new subscription to the ticks of the host, which starts with the
    /// next tick.
    pub fn new_ticker(&self) -> Ticker {
        Ticker { inner: broadcast_resubscribe(&self.ticker) }
    }

    /// Closes the whole app.
    pub fn exit(&self) {
        let _ = self.send(EventMessage::ExitApp);
    }
}

/// What a press of the pointer on a window drag area does: unless the area
/// is disabled, the press is used up and the host is asked to drag the
/// window. An area is enabled unless it says otherwise. Returns whether the
/// press was used up.
pub fn window_drag_area_pressed(platform: &UsePlatform, enable: Option<bool>) -> (used: bool)
    ensures
        used == (enable != Some(false)),
{
    let enabled: bool = match enable {
        Some(enabled) => enabled,
        None => true,
    };
    if enabled {
        platform.drag_window();
    }
    enabled
}

/// A subscription to the ticks of the host.
pub struct Ticker {
    pub inner: tokio::sync::broadcast::Receiver<()>,
}

/// Information about the platform: where the window is and how large.
#[derive(Debug, Clone, Copy, PartialEq, Eq, Structural)]
pub struct PlatformInformation {
    pub window_size: Size2D,
    pub window_position: Point2D,
}

impl PlatformInformation {
    /// The information that the host's report of a size and a position
    /// gives.
    pub fn from_winit(physical_size: PhysicalSize, physical_position: PhysicalPosition) -> (info:
        Self)
        ensures
            info.window_size == (Size2D {
                width: physical_size.width,
                height: physical_size.height,
            }),
            info.window_position == (Point2D { x: physical_position.x, y: physical_position.y }),
    {
        Self {
            window_size: Size2D { width: physical_size.width, height: physical_size.height },
            window_position: Point2D { x: physical_position.x, y: physical_position.y },
        }
    }

    pub fn new(window_size: Size2D, window_position: Point2D) -> (info: Self)
        ensures
            info.window_size == window_size,
            info.window_position == window_position,
    {
        Self { window_size, window_position }
    }

    /// Takes over the size that the host reports. The position stays.
    pub fn set_window_size(&mut self, physical_size: PhysicalSize)
        ensures
            final(self).window_size == (Size2D {
                width: physical_size.width,
                height: physical_size.height,
            }),
            final(self).window_position == old(self).window_position,
    {
        self.window_size = Size2D { width: physical_size.width, height: physical_size.height };
    }

    /// Takes over the position that the host reports. The size stays.
    pub fn set_window_position(&mut self, physical_position: PhysicalPosition)
        ensures
            final(self).window_position == (Point2D {
                x: physical_position.x,
                y: physical_position.y,
            }),
            final(self).window_size == old(self).window_size,
    {
        self.window_position = Point2D { x: physical_position.x, y: physical_position.y };
    }
}

} // verus!
