//! Window-control state: what an application callback asks of the
//! window, recorded with dirty flags so the event loop applies only
//! what actually changed.

use vstd::prelude::*;

verus! {

/// Requested window position, size and mode. Each setter records its
/// request and raises a dirty flag only when the value differs from the
/// current one; the event loop reads the flags, applies the changes and
/// lowers them.
#[derive(Debug)]
pub struct AppControl {
    x: i32,
    y: i32,
    dirty_pos: bool,
    width: u32,
    height: u32,
    dirty_size: bool,
    minimized: bool,
    dirty_minimized: bool,
    maximized: bool,
    dirty_maximized: bool,
    pub close_requested: bool,
}

impl AppControl {
    /// The recorded window position.
    pub closed spec fn spec_position(&self) -> (i32, i32) {
        (self.x, self.y)
    }

    /// The recorded window size.
    pub closed spec fn spec_size(&self) -> (u32, u32) {
        (self.width, self.height)
    }

    /// The recorded minimized state.
    pub closed spec fn spec_minimized(&self) -> bool {
        self.minimized
    }

    /// The recorded maximized state.
    pub closed spec fn spec_maximized(&self) -> bool {
        self.maximized
    }

    /// Whether an unapplied position request is pending.
    pub closed spec fn spec_dirty_position(&self) -> bool {
        self.dirty_pos
    }

    /// Whether an unapplied size request is pending.
    pub closed spec fn spec_dirty_size(&self) -> bool {
        self.dirty_size
    }

    /// Whether an unapplied minimized request is pending.
    pub closed spec fn spec_dirty_minimized(&self) -> bool {
        self.dirty_minimized
    }

    /// Whether an unapplied maximized request is pending.
    pub closed spec fn spec_dirty_maximized(&self) -> bool {
        self.dirty_maximized
    }

    /// Whether closing the window was requested.
    pub closed spec fn spec_close_requested(&self) -> bool {
        self.close_requested
    }

    /// Control state mirroring the window's current position, size and
    /// mode, with no pending requests.
    pub fn new(x: i32, y: i32, width: u32, height: u32, minimized: bool, maximized: bool) -> (r:
        Self)
        ensures
            r.spec_position() == (x, y),
            r.spec_size() == (width, height),
            r.spec_minimized() == minimized,
            r.spec_maximized() == maximized,
            !r.spec_dirty_position(),
            !r.spec_dirty_size(),
            !r.spec_dirty_minimized(),
            !r.spec_dirty_maximized(),
            !r.spec_close_requested(),
    {
        Self {
            x,
            y,
            dirty_pos: false,
            width,
            height,
            dirty_size: false,
            minimized,
            dirty_minimized: false,
            maximized,
            dirty_maximized: false,
            close_requested: false,
        }
    }

    /// The recorded window position.
    pub fn position(&self) -> (r: (i32, i32))
        ensures
            r == self.spec_position(),
    {
        (self.x, self.y)
    }

    /// Requests a window position; a no-op when it already matches.
    pub fn set_position(&mut self, x: i32, y: i32)
        ensures
            final(self).spec_position() == (x, y),
            final(self).spec_dirty_position() == (old(self).spec_dirty_position() || old(
                self,
            ).spec_position() != (x, y)),
            final(self).spec_size() == old(self).spec_size(),
            final(self).spec_dirty_size() == old(self).spec_dirty_size(),
            final(self).spec_minimized() == old(self).spec_minimized(),
            final(self).spec_dirty_minimized() == old(self).spec_dirty_minimized(),
            final(self).spec_maximized() == old(self).spec_maximized(),
            final(self).spec_dirty_maximized() == old(self).spec_dirty_maximized(),
            final(self).spec_close_requested() == old(self).spec_close_requested(),
    {
        if self.x == x && self.y == y {
            return ;
        }
        self.x = x;
        self.y = y;
        self.dirty_pos = true;
    }

    /// The recorded window size.
    pub fn size(&self) -> (r: (u32, u32))
        ensures
            r == self.spec_size(),
    {
        (self.width, self.height)
    }

    /// Requests a window size; a no-op when it already matches.
    pub fn set_size(&mut self, width: u32, height: u32)
        ensures
            final(self).spec_size() == (width, height),
            final(self).spec_dirty_size() == (old(self).spec_dirty_size() || old(
                self,
            ).spec_size() != (width, height)),
            final(self).spec_position() == old(self).spec_position(),
            final(self).spec_dirty_position() == old(self).spec_dirty_position(),
            final(self).spec_minimized() == old(self).spec_minimized(),
            final(self).spec_dirty_minimized() == old(self).spec_dirty_minimized(),
            final(self).spec_maximized() == old(self).spec_maximized(),
            final(self).spec_dirty_maximized() == old(self).spec_dirty_maximized(),
            final(self).spec_close_requested() == old(self).spec_close_requested(),
    {
        if self.width == width && self.height == height {
            return ;
        }
        self.width = width;
        self.height = height;
        self.dirty_size = true;
    }

    /// The recorded minimized state.
    pub fn minimized(&self) -> (r: bool)
        ensures
            r == self.spec_minimized(),
    {
        self.minimized
    }

    /// Requests a minimized state; a no-op when it already matches.
    pub fn set_minimized(&mut self, minimized: bool)
        ensures
            final(self).spec_minimized() == minimized,
            final(self).spec_dirty_minimized() == (old(self).spec_dirty_minimized() || old(
                self,
            ).spec_minimized() != minimized),
            final(self).spec_position() == old(self).spec_position(),
            final(self).spec_dirty_position() == old(self).spec_dirty_position(),
            final(self).spec_size() == old(self).spec_size(),
            final(self).spec_dirty_size() == old(self).spec_dirty_size(),
            final(self).spec_maximized() == old(self).spec_maximized(),
            final(self).spec_dirty_maximized() == old(self).spec_dirty_maximized(),
            final(self).spec_close_requested() == old(self).spec_close_requested(),
    {
        if self.minimized == minimized {
            return ;
        }
        self.minimized = minimized;
        self.dirty_minimized = true;
    }

    /// The recorded maximized state.
    pub fn maximized(&self) -> (r: bool)
        ensures
            r == self.spec_maximized(),
    {
        self.maximized
    }

    /// Requests a maximized state; a no-op when it already matches.
    pub fn set_maximized(&mut self, maximized: bool)
        ensures
            final(self).spec_maximized() == maximized,
            final(self).spec_dirty_maximized() == (old(self).spec_dirty_maximized() || old(
                self,
            ).spec_maximized() != maximized),
            final(self).spec_position() == old(self).spec_position(),
            final(self).spec_dirty_position() == old(self).spec_dirty_position(),
            final(self).spec_size() == old(self).spec_size(),
            final(self).spec_dirty_size() == old(self).spec_dirty_size(),
            final(self).spec_minimized() == old(self).spec_minimized(),
            final(self).spec_dirty_minimized() == old(self).spec_dirty_minimized(),
            final(self).spec_close_requested() == old(self).spec_close_requested(),
    {
        if self.maximized == maximized {
            return ;
        }
        self.maximized = maximized;
        self.dirty_maximized = true;
    }

    /// Reads and lowers the position dirty flag, handing the event loop
    /// the request to apply.
    pub fn take_dirty_position(&mut self) -> (r: Option<(i32, i32)>)
        ensures
            r == if old(self).spec_dirty_position() {
                Some(old(self).spec_position())
            } else {
                None::<(i32, i32)>
            },
            !final(self).spec_dirty_position(),
            final(self).spec_position() == old(self).spec_position(),
            final(self).spec_size() == old(self).spec_size(),
            final(self).spec_dirty_size() == old(self).spec_dirty_size(),
            final(self).spec_minimized() == old(self).spec_minimized(),
            final(self).spec_dirty_minimized() == old(self).spec_dirty_minimized(),
            final(self).spec_maximized() == old(self).spec_maximized(),
            final(self).spec_dirty_maximized() == old(self).spec_dirty_maximized(),
            final(self).spec_close_requested() == old(self).spec_close_requested(),
    {
        if self.dirty_pos {
            self.dirty_pos = false;
            Some((self.x, self.y))
        } else {
            None
        }
    }

    /// Reads and lowers the size dirty flag, handing the event loop the
    /// request to apply.
    pub fn take_dirty_size(&mut self) -> (r: Option<(u32, u32)>)
        ensures
            r == if old(self).spec_dirty_size() {
                Some(old(self).spec_size())
            } else {
                None::<(u32, u32)>
            },
            !final(self).spec_dirty_size(),
            final(self).spec_position() == old(self).spec_position(),
            final(self).spec_dirty_position() == old(self).spec_dirty_position(),
            final(self).spec_size() == old(self).spec_size(),
            final(self).spec_minimized() == old(self).spec_minimized(),
            final(self).spec_dirty_minimized() == old(self).spec_dirty_minimized(),
            final(self).spec_maximized() == old(self).spec_maximized(),
            final(self).spec_dirty_maximized() == old(self).spec_dirty_maximized(),
            final(self).spec_close_requested() == old(self).spec_close_requested(),
    {
        if self.dirty_size {
            self.dirty_size = false;
            Some((self.width, self.height))
        } else {
            None
        }
    }

    /// Reads and lowers the minimized dirty flag.
    pub fn take_dirty_minimized(&mut self) -> (r: Option<bool>)
        ensures
            r == if old(self).spec_dirty_minimized() {
                Some(old(self).spec_minimized())
            } else {
                None::<bool>
            },
            !final(self).spec_dirty_minimized(),
            final(self).spec_position() == old(self).spec_position(),
            final(self).spec_dirty_position() == old(self).spec_dirty_position(),
            final(self).spec_size() == old(self).spec_size(),
            final(self).spec_dirty_size() == old(self).spec_dirty_size(),
            final(self).spec_minimized() == old(self).spec_minimized(),
            final(self).spec_maximized() == old(self).spec_maximized(),
            final(self).spec_dirty_maximized() == old(self).spec_dirty_maximized(),
            final(self).spec_close_requested() == old(self).spec_close_requested(),
    {
        if self.dirty_minimized {
            self.dirty_minimized = false;
            Some(self.minimized)
        } else {
            None
        }
    }

    /// Reads and lowers the maximized dirty flag.
    pub fn take_dirty_maximized(&mut self) -> (r: Option<bool>)
        ensures
            r == if old(self).spec_dirty_maximized() {
                Some(old(self).spec_maximized())
            } else {
                None::<bool>
            },
            !final(self).spec_dirty_maximized(),
            final(self).spec_position() == old(self).spec_position(),
            final(self).spec_dirty_position() == old(self).spec_dirty_position(),
            final(self).spec_size() == old(self).spec_size(),
            final(self).spec_dirty_size() == old(self).spec_dirty_size(),
            final(self).spec_minimized() == old(self).spec_minimized(),
            final(self).spec_dirty_minimized() == old(self).spec_dirty_minimized(),
            final(self).spec_maximized() == old(self).spec_maximized(),
            final(self).spec_close_requested() == old(self).spec_close_requested(),
    {
        if self.dirty_maximized {
            self.dirty_maximized = false;
            Some(self.maximized)
        } else {
            None
        }
    }
}

} // verus!
