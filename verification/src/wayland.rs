//! The display server side of the window protocol: clients, the objects
//! that they create, and the surfaces and buffers behind them. No message
//! ever crosses a socket here; the display only keeps the books.

use crate::collections::btree_get_mut;
use crate::memory::{after_allocation, allocation_result, PageAllocator};
use std::collections::BTreeMap;
use vstd::prelude::*;

pub mod protocol;

verus! {

/// Why a protocol operation did not succeed.
#[derive(Debug, Clone, Copy, PartialEq, Eq, Structural)]
pub enum WaylandError {
    InvalidResource,
    ProtocolError,
    OutOfMemory,
    InvalidSocket,
}

/// The descriptor that stands for the listening socket.
pub const SOCKET_FD: i32 = 100;

/// The abstract state of a protocol object.
pub struct ObjectState {
    pub id: u32,
    pub interface: Seq<char>,
    pub version: u32,
    /// The address of the data behind the object; 0 where there is none.
    pub data: usize,
}

/// An object that a client has created.
#[derive(Debug)]
pub struct WaylandObject {
    id: u32,
    interface: &'static str,
    version: u32,
    data: usize,
}

impl View for WaylandObject {
    type V = ObjectState;

    closed spec fn view(&self) -> ObjectState {
        ObjectState {
            id: self.id,
            interface: self.interface@,
            version: self.version,
            data: self.data,
        }
    }
}

impl WaylandObject {
    pub fn id(&self) -> (id: u32)
        ensures
            id == self@.id,
    {
        self.id
    }

    pub fn interface(&self) -> (interface: &'static str)
        ensures
            interface@ == self@.interface,
    {
        self.interface
    }

    pub fn version(&self) -> (version: u32)
        ensures
            version == self@.version,
    {
        self.version
    }

    /// Records where the data behind the object lives.
    pub fn set_data(&mut self, data: usize)
        ensures
            final(self)@ == (ObjectState { data, ..old(self)@ }),
    {
        self.data = data;
    }
}

/// The abstract state of a client.
pub struct ClientState {
    pub id: u32,
    pub fd: i32,
    pub objects: Map<u32, ObjectState>,
    /// The id that the next object gets.
    pub next_object_id: u32,
}

impl ClientState {
    /// A client that has created nothing yet.
    pub open spec fn fresh(id: u32, fd: i32) -> ClientState {
        ClientState { id, fd, objects: Map::empty(), next_object_id: 1 }
    }

    /// What `create_object` answers.
    pub open spec fn create_result(self) -> Result<u32, WaylandError> {
        if self.next_object_id < u32::MAX {
            Ok(self.next_object_id)
        } else {
            Err(WaylandError::OutOfMemory)
        }
    }

    /// The client after `create_object`.
    pub open spec fn after_create(self, interface: Seq<char>, version: u32) -> ClientState {
        if self.next_object_id < u32::MAX {
            ClientState {
                objects: self.objects.insert(
                    self.next_object_id,
                    ObjectState { id: self.next_object_id, interface, version, data: 0 },
                ),
                next_object_id: (self.next_object_id + 1) as u32,
                ..self
            }
        } else {
            self
        }
    }
}

/// A program that talks to the display.
#[derive(Debug)]
pub struct WaylandClient {
    id: u32,
    fd: i32,
    objects: BTreeMap<u32, WaylandObject>,
    next_object_id: u32,
}

impl View for WaylandClient {
    type V = ClientState;

    closed spec fn view(&self) -> ClientState {
        ClientState {
            id: self.id,
            fd: self.fd,
            objects: self.objects@.map_values(|o: WaylandObject| o@),
            next_object_id: self.next_object_id,
        }
    }
}

impl WaylandClient {
    /// Creates an object of the interface `interface` and answers its id.
    pub fn create_object(&mut self, interface: &'static str, version: u32) -> (r: Result<
        u32,
        WaylandError,
    >)
        ensures
            r == old(self)@.create_result(),
            final(self)@ == old(self)@.after_create(interface@, version),
    {
        if self.next_object_id == u32::MAX {
            return Err(WaylandError::OutOfMemory);
        }
        let object_id = self.next_object_id;
        self.next_object_id += 1;
        let object = WaylandObject { id: object_id, interface, version, data: 0 };
        self.objects.insert(object_id, object);
        assert(self@.objects =~= old(self)@.after_create(interface@, version).objects);
        Ok(object_id)
    }

    /// The object `object_id`.
    pub fn get_object(&self, object_id: u32) -> (found: Option<&WaylandObject>)
        ensures
            found is Some <==> self@.objects.contains_key(object_id),
            found is Some ==> found->Some_0@ == self@.objects[object_id],
    {
        assert(self@.objects.contains_key(object_id) == self.objects@.contains_key(object_id));
        self.objects.get(&object_id)
    }

    /// The object `object_id`, to be changed in place.
    pub fn get_object_mut(&mut self, object_id: u32) -> (found: Option<&mut WaylandObject>)
        ensures
            found is Some <==> old(self)@.objects.contains_key(object_id),
            found is Some ==> found->Some_0@ == old(self)@.objects[object_id] && final(self)@ == (
            ClientState {
                objects: old(self)@.objects.insert(object_id, final(found->Some_0)@),
                ..old(self)@
            }),
            found is None ==> final(self)@ == old(self)@,
    {
        let ghost pre = self@;
        let ghost before = self.objects@;
        assert(pre.objects.contains_key(object_id) == before.contains_key(object_id));
        let found = btree_get_mut(&mut self.objects, object_id);
        proof {
            if found is Some {
                assert(before.insert(object_id, *final(found->Some_0)).map_values(
                    |o: WaylandObject| o@,
                ) =~= pre.objects.insert(object_id, final(found->Some_0)@));
            }
        }
        found
    }

    /// Forgets the object `object_id`, whether or not it exists.
    pub fn remove_object(&mut self, object_id: u32) -> (r: Result<(), WaylandError>)
        ensures
            r == Ok::<(), WaylandError>(()),
            final(self)@ == (ClientState {
                objects: old(self)@.objects.remove(object_id),
                ..old(self)@
            }),
    {
        self.objects.remove(&object_id);
        assert(self@.objects =~= old(self)@.objects.remove(object_id));
        Ok(())
    }
}

/// The abstract state of the display.
pub struct DisplayState {
    pub clients: Map<u32, ClientState>,
    /// The id that the next client gets.
    pub next_client_id: u32,
    /// The descriptor of the listening socket; -1 before there is one.
    pub socket_fd: i32,
}

impl DisplayState {
    /// The display at start-up.
    pub open spec fn empty() -> DisplayState {
        DisplayState { clients: Map::empty(), next_client_id: 1, socket_fd: -1i32 }
    }

    /// What `accept_client` answers.
    pub open spec fn accept_result(self) -> Result<u32, WaylandError> {
        if self.next_client_id < u32::MAX {
            Ok(self.next_client_id)
        } else {
            Err(WaylandError::OutOfMemory)
        }
    }

    /// The display after `accept_client`.
    pub open spec fn after_accept(self, fd: i32) -> DisplayState {
        if self.next_client_id < u32::MAX {
            DisplayState {
                clients: self.clients.insert(
                    self.next_client_id,
                    ClientState::fresh(self.next_client_id, fd),
                ),
                next_client_id: (self.next_client_id + 1) as u32,
                ..self
            }
        } else {
            self
        }
    }

    /// What creating a surface object for the client `client_id` answers.
    pub open spec fn surface_result(self, client_id: u32) -> Result<u32, WaylandError> {
        if self.clients.contains_key(client_id) {
            self.clients[client_id].create_result()
        } else {
            Err(WaylandError::InvalidResource)
        }
    }

    /// The display after a surface object was created for the client
    /// `client_id`.
    pub open spec fn after_surface(self, client_id: u32) -> DisplayState {
        if self.clients.contains_key(client_id) {
            DisplayState {
                clients: self.clients.insert(
                    client_id,
                    self.clients[client_id].after_create(protocol::WL_SURFACE_INTERFACE@, 1),
                ),
                ..self
            }
        } else {
            self
        }
    }
}

/// The display: the clients and the listening socket.
#[derive(Debug)]
pub struct WaylandDisplay {
    clients: BTreeMap<u32, WaylandClient>,
    next_client_id: u32,
    socket_fd: i32,
}

impl View for WaylandDisplay {
    type V = DisplayState;

    closed spec fn view(&self) -> DisplayState {
        DisplayState {
            clients: self.clients@.map_values(|c: WaylandClient| c@),
            next_client_id: self.next_client_id,
            socket_fd: self.socket_fd,
        }
    }
}

impl WaylandDisplay {
    /// A display without a client and without a socket.
    pub fn new() -> (r: Result<WaylandDisplay, WaylandError>)
        ensures
            r is Ok,
            r->Ok_0@ == DisplayState::empty(),
    {
        let display = WaylandDisplay { clients: BTreeMap::new(), next_client_id: 1, socket_fd: -1 };
        assert(display@.clients =~= Map::empty());
        Ok(display)
    }

    /// Opens the listening socket and answers its descriptor.
    pub fn create_socket(&mut self) -> (r: Result<i32, WaylandError>)
        ensures
            r == Ok::<i32, WaylandError>(SOCKET_FD),
            final(self)@ == (DisplayState { socket_fd: SOCKET_FD, ..old(self)@ }),
    {
        self.socket_fd = SOCKET_FD;
        Ok(self.socket_fd)
    }

    /// Takes in the client behind the descriptor `fd` and answers its id.
    pub fn accept_client(&mut self, fd: i32) -> (r: Result<u32, WaylandError>)
        ensures
            r == old(self)@.accept_result(),
            final(self)@ == old(self)@.after_accept(fd),
    {
        if self.next_client_id == u32::MAX {
            return Err(WaylandError::OutOfMemory);
        }
        let client_id = self.next_client_id;
        self.next_client_id += 1;
        let client = WaylandClient {
            id: client_id,
            fd,
            objects: BTreeMap::new(),
            next_object_id: 1,
        };
        assert(client@.objects =~= Map::empty());
        self.clients.insert(client_id, client);
        assert(self@.clients =~= old(self)@.after_accept(fd).clients);
        Ok(client_id)
    }

    /// The client `client_id`, to be changed in place.
    pub fn get_client_mut(&mut self, client_id: u32) -> (found: Option<&mut WaylandClient>)
        ensures
            found is Some <==> old(self)@.clients.contains_key(client_id),
            found is Some ==> found->Some_0@ == old(self)@.clients[client_id] && final(self)@ == (
            DisplayState {
                clients: old(self)@.clients.insert(client_id, final(found->Some_0)@),
                ..old(self)@
            }),
            found is None ==> final(self)@ == old(self)@,
    {
        let ghost pre = self@;
        let ghost before = self.clients@;
        assert(pre.clients.contains_key(client_id) == before.contains_key(client_id));
        let found = btree_get_mut(&mut self.clients, client_id);
        proof {
            if found is Some {
                assert(before.insert(client_id, *final(found->Some_0)).map_values(
                    |c: WaylandClient| c@,
                ) =~= pre.clients.insert(client_id, final(found->Some_0)@));
            }
        }
        found
    }

    /// Forgets the client `client_id`, whether or not it exists.
    pub fn remove_client(&mut self, client_id: u32) -> (r: Result<(), WaylandError>)
        ensures
            r == Ok::<(), WaylandError>(()),
            final(self)@ == (DisplayState {
                clients: old(self)@.clients.remove(client_id),
                ..old(self)@
            }),
    {
        self.clients.remove(&client_id);
        assert(self@.clients =~= old(self)@.clients.remove(client_id));
        Ok(())
    }

    /// Handles the messages that have come in. None ever does, so the
    /// display stays as it is.
    pub fn dispatch_events(&mut self) -> (r: Result<(), WaylandError>)
        ensures
            r == Ok::<(), WaylandError>(()),
            final(self)@ == old(self)@,
    {
        Ok(())
    }

    /// Sends what waits for the clients. Nothing ever does, so the
    /// display stays as it is.
    pub fn flush_clients(&mut self) -> (r: Result<(), WaylandError>)
        ensures
            r == Ok::<(), WaylandError>(()),
            final(self)@ == old(self)@,
    {
        Ok(())
    }
}

/// The abstract state of a protocol surface.
pub struct WaylandSurfaceState {
    pub id: u32,
    pub width: u32,
    pub height: u32,
    pub buffer: Option<usize>,
    pub committed: bool,
}

/// A surface as the protocol sees it.
#[derive(Debug)]
pub struct WaylandSurface {
    id: u32,
    width: u32,
    height: u32,
    buffer: Option<usize>,
    committed: bool,
}

impl View for WaylandSurface {
    type V = WaylandSurfaceState;

    closed spec fn view(&self) -> WaylandSurfaceState {
        WaylandSurfaceState {
            id: self.id,
            width: self.width,
            height: self.height,
            buffer: self.buffer,
            committed: self.committed,
        }
    }
}

impl WaylandSurface {
    /// A surface without size or buffer that was never committed.
    pub fn new(id: u32) -> (surface: WaylandSurface)
        ensures
            surface@ == (WaylandSurfaceState {
                id,
                width: 0,
                height: 0,
                buffer: None,
                committed: false,
            }),
    {
        WaylandSurface { id, width: 0, height: 0, buffer: None, committed: false }
    }

    /// Attaches the buffer `buffer_id`.
    pub fn attach_buffer(&mut self, buffer_id: u32) -> (r: Result<(), WaylandError>)
        ensures
            r == Ok::<(), WaylandError>(()),
            final(self)@ == (WaylandSurfaceState {
                buffer: Some(buffer_id as usize),
                ..old(self)@
            }),
    {
        self.buffer = Some(buffer_id as usize);
        Ok(())
    }

    /// Commits the surface.
    pub fn commit(&mut self) -> (r: Result<(), WaylandError>)
        ensures
            r == Ok::<(), WaylandError>(()),
            final(self)@ == (WaylandSurfaceState { committed: true, ..old(self)@ }),
    {
        self.committed = true;
        Ok(())
    }

    pub fn set_size(&mut self, width: u32, height: u32)
        ensures
            final(self)@ == (WaylandSurfaceState { width, height, ..old(self)@ }),
    {
        self.width = width;
        self.height = height;
    }
}

/// The abstract state of a protocol buffer.
pub struct WaylandBufferState {
    pub id: u32,
    pub width: u32,
    pub height: u32,
    /// The bytes of a row.
    pub stride: u32,
    pub format: u32,
    /// The address of the pixel data.
    pub data_ptr: usize,
}

/// What creating a buffer of `height` rows of `stride` bytes answers when
/// the page allocator stands at `next_addr`. A buffer of more bytes than
/// 32 bits count, and one that the allocator cannot serve, are reported
/// as out of memory.
pub open spec fn buffer_result(next_addr: u64, height: u32, stride: u32) -> Result<
    (),
    WaylandError,
> {
    if height * stride > u32::MAX || allocation_result(next_addr, (height * stride) as usize)
        is Err {
        Err(WaylandError::OutOfMemory)
    } else {
        Ok(())
    }
}

/// The next free address of the page allocator after a buffer was asked
/// for.
pub open spec fn pages_after_buffer(next_addr: u64, height: u32, stride: u32) -> u64 {
    if buffer_result(next_addr, height, stride) is Ok {
        after_allocation(next_addr, (height * stride) as usize)
    } else {
        next_addr
    }
}

/// Pixel data that a client shares with the display.
#[derive(Debug)]
pub struct WaylandBuffer {
    id: u32,
    width: u32,
    height: u32,
    stride: u32,
    format: u32,
    data_ptr: usize,
}

impl View for WaylandBuffer {
    type V = WaylandBufferState;

    closed spec fn view(&self) -> WaylandBufferState {
        WaylandBufferState {
            id: self.id,
            width: self.width,
            height: self.height,
            stride: self.stride,
            format: self.format,
            data_ptr: self.data_ptr,
        }
    }
}

impl WaylandBuffer {
    #[verifier::type_invariant]
    spec fn fits(self) -> bool {
        self.height * self.stride <= u32::MAX
    }

    /// Creates a buffer whose pixel data comes from `pages`.
    pub fn new(
        pages: &mut PageAllocator,
        id: u32,
        width: u32,
        height: u32,
        stride: u32,
        format: u32,
    ) -> (r: Result<WaylandBuffer, WaylandError>)
        requires
            old(pages).wf(),
        ensures
            final(pages).wf(),
            final(pages)@ == pages_after_buffer(old(pages)@, height, stride),
            match r {
                Ok(buffer) => buffer_result(old(pages)@, height, stride) is Ok && buffer@ == (
                WaylandBufferState {
                    id,
                    width,
                    height,
                    stride,
                    format,
                    data_ptr: old(pages)@ as usize,
                }),
                Err(e) => buffer_result(old(pages)@, height, stride) == Err::<(), WaylandError>(e),
            },
    {
        assert(height * stride <= 0xffff_ffff * 0xffff_ffff) by (nonlinear_arith)
            requires
                height <= 0xffff_ffff,
                stride <= 0xffff_ffff,
        ;
        let bytes: u64 = (height as u64) * (stride as u64);
        if bytes > u32::MAX as u64 {
            return Err(WaylandError::OutOfMemory);
        }
        let data_ptr = match crate::memory::allocate_pages(pages, bytes as usize) {
            Ok(addr) => addr,
            Err(_) => {
                return Err(WaylandError::OutOfMemory);
            },
        };
        Ok(
            WaylandBuffer {
                id,
                width,
                height,
                stride,
                format,
                data_ptr: #[verifier::truncate]
                (data_ptr as usize),
            },
        )
    }

    /// The id of the buffer.
    pub fn id(&self) -> (id: u32)
        ensures
            id == self@.id,
    {
        self.id
    }

    /// The address of the pixel data.
    pub fn get_data_ptr(&self) -> (addr: usize)
        ensures
            addr == self@.data_ptr,
    {
        self.data_ptr
    }

    /// The size of the pixel data in bytes.
    pub fn get_size(&self) -> (size: usize)
        ensures
            size == self@.height * self@.stride,
    {
        proof {
            use_type_invariant(self);
        }
        (self.height * self.stride) as usize
    }
}

/// The state of a place that holds the display once it is set up.
pub open spec fn slot_state(slot: Option<WaylandDisplay>) -> Option<DisplayState> {
    match slot {
        Some(display) => Some(display@),
        None => None,
    }
}

/// Sets the display up. A second set-up is refused.
pub fn wayland_init(slot: &mut Option<WaylandDisplay>) -> (r: Result<(), WaylandError>)
    ensures
        r == if *old(slot) is Some {
            Err::<(), WaylandError>(WaylandError::ProtocolError)
        } else {
            Ok::<(), WaylandError>(())
        },
        slot_state(*final(slot)) == if *old(slot) is Some {
            slot_state(*old(slot))
        } else {
            Some(DisplayState::empty())
        },
{
    if slot.is_some() {
        return Err(WaylandError::ProtocolError);
    }
    match WaylandDisplay::new() {
        Ok(display) => {
            *slot = Some(display);
            Ok(())
        },
        Err(e) => Err(e),
    }
}

/// The display, if it is set up.
pub fn wayland_get_display(slot: &mut Option<WaylandDisplay>) -> (found: Option<
    &mut WaylandDisplay,
>)
    ensures
        found is Some <==> *old(slot) is Some,
        found is Some ==> *found->Some_0 == old(slot)->Some_0 && *final(slot) == Some(
            *final(found->Some_0),
        ),
        found is None ==> *final(slot) == *old(slot),
{
    slot.as_mut()
}

/// Opens the listening socket.
pub fn wayland_create_socket(slot: &mut Option<WaylandDisplay>) -> (r: Result<i32, WaylandError>)
    ensures
        match slot_state(*old(slot)) {
            Some(before) => r == Ok::<i32, WaylandError>(SOCKET_FD) && slot_state(*final(slot))
                == Some(DisplayState { socket_fd: SOCKET_FD, ..before }),
            None => r == Err::<i32, WaylandError>(WaylandError::InvalidResource) && *final(slot)
                is None,
        },
{
    match slot {
        Some(display) => display.create_socket(),
        None => Err(WaylandError::InvalidResource),
    }
}

/// Takes in the client behind the descriptor `fd`.
pub fn wayland_accept_client(slot: &mut Option<WaylandDisplay>, fd: i32) -> (r: Result<
    u32,
    WaylandError,
>)
    ensures
        match slot_state(*old(slot)) {
            Some(before) => r == before.accept_result() && slot_state(*final(slot)) == Some(
                before.after_accept(fd),
            ),
            None => r == Err::<u32, WaylandError>(WaylandError::InvalidResource) && *final(slot)
                is None,
        },
{
    match slot {
        Some(display) => display.accept_client(fd),
        None => Err(WaylandError::InvalidResource),
    }
}

/// Handles the messages that have come in.
pub fn wayland_dispatch_events(slot: &mut Option<WaylandDisplay>) -> (r: Result<(), WaylandError>)
    ensures
        r == if *old(slot) is Some {
            Ok::<(), WaylandError>(())
        } else {
            Err::<(), WaylandError>(WaylandError::InvalidResource)
        },
        slot_state(*final(slot)) == slot_state(*old(slot)),
{
    match slot {
        Some(display) => display.dispatch_events(),
        None => Err(WaylandError::InvalidResource),
    }
}

/// Sends what waits for the clients.
pub fn wayland_flush_clients(slot: &mut Option<WaylandDisplay>) -> (r: Result<(), WaylandError>)
    ensures
        r == if *old(slot) is Some {
            Ok::<(), WaylandError>(())
        } else {
            Err::<(), WaylandError>(WaylandError::InvalidResource)
        },
        slot_state(*final(slot)) == slot_state(*old(slot)),
{
    match slot {
        Some(display) => display.flush_clients(),
        None => Err(WaylandError::InvalidResource),
    }
}

/// Creates a surface object for the client `client_id` and answers its
/// id. The size plays no part.
pub fn create_cosmic_surface(
    slot: &mut Option<WaylandDisplay>,
    client_id: u32,
    _width: u32,
    _height: u32,
) -> (r: Result<u32, WaylandError>)
    ensures
        match slot_state(*old(slot)) {
            Some(before) => r == before.surface_result(client_id) && slot_state(*final(slot))
                == Some(before.after_surface(client_id)),
            None => r == Err::<u32, WaylandError>(WaylandError::InvalidResource) && *final(slot)
                is None,
        },
{
    match slot {
        Some(display) => {
            let ghost before = display@;
            match display.get_client_mut(client_id) {
                Some(client) => {
                    let r = client.create_object(protocol::WL_SURFACE_INTERFACE, 1);
                    assert(display@.clients =~= before.after_surface(client_id).clients);
                    match r {
                        Ok(surface_id) => {
                            let _surface = WaylandSurface::new(surface_id);
                            Ok(surface_id)
                        },
                        Err(e) => Err(e),
                    }
                },
                None => Err(WaylandError::InvalidResource),
            }
        },
        None => Err(WaylandError::InvalidResource),
    }
}

/// The id that every buffer made by `create_cosmic_buffer` carries.
pub const COSMIC_BUFFER_ID: u32 = 1;

/// What `create_cosmic_buffer` answers: rows of four bytes for each pixel.
pub open spec fn cosmic_buffer_result(next_addr: u64, width: u32, height: u32) -> Result<
    u32,
    WaylandError,
> {
    if width * 4 > u32::MAX || buffer_result(next_addr, height, (width * 4) as u32) is Err {
        Err(WaylandError::OutOfMemory)
    } else {
        Ok(COSMIC_BUFFER_ID)
    }
}

/// Creates a buffer of `width` by `height` pixels of four bytes each and
/// answers its id.
pub fn create_cosmic_buffer(pages: &mut PageAllocator, width: u32, height: u32, format: u32) -> (r:
    Result<u32, WaylandError>)
    requires
        old(pages).wf(),
    ensures
        final(pages).wf(),
        r == cosmic_buffer_result(old(pages)@, width, height),
        final(pages)@ == if width * 4 > u32::MAX {
            old(pages)@
        } else {
            pages_after_buffer(old(pages)@, height, (width * 4) as u32)
        },
{
    if width > u32::MAX / 4 {
        return Err(WaylandError::OutOfMemory);
    }
    let stride = width * 4;
    match WaylandBuffer::new(pages, COSMIC_BUFFER_ID, width, height, stride, format) {
        Ok(buffer) => Ok(buffer.id()),
        Err(e) => Err(e),
    }
}

} // verus!
