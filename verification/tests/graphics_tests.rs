use rustos::graphics::{
    graphics_attach_surface_to_window, graphics_composite, graphics_create_surface,
    graphics_create_window, graphics_get_compositor, graphics_get_stats, graphics_init,
    graphics_init_framebuffer, graphics_set_window_focus, Compositor, Framebuffer, GraphicsError,
    PixelFormat, Surface, Window,
};
use rustos::memory::PageAllocator;

#[test]
fn bytes_per_pixel_of_each_format() {
    assert_eq!(PixelFormat::RGB888.bytes_per_pixel(), 3);
    assert_eq!(PixelFormat::RGBA8888.bytes_per_pixel(), 4);
    assert_eq!(PixelFormat::BGR888.bytes_per_pixel(), 3);
    assert_eq!(PixelFormat::BGRA8888.bytes_per_pixel(), 4);
    assert_eq!(PixelFormat::RGB565.bytes_per_pixel(), 2);
}

#[test]
fn a_new_framebuffer_is_black_and_owns_fresh_pages() {
    let mut pages = PageAllocator::new();
    let fb = Framebuffer::new(&mut pages, 8, 4, PixelFormat::RGB888).unwrap();
    assert_eq!(fb.get_width(), 8);
    assert_eq!(fb.get_height(), 4);
    assert_eq!(fb.get_stride(), 24);
    assert_eq!(fb.get_format(), PixelFormat::RGB888);
    assert_eq!(fb.get_buffer_ptr(), 0x6000_0000);
    assert_eq!(fb.pixel(0, 0), Some(0));
    assert_eq!(fb.pixel(7, 3), Some(0));
    assert_eq!(fb.pixel(8, 0), None);
    assert_eq!(fb.pixel(0, 4), None);
    let second = Framebuffer::new(&mut pages, 1024, 2, PixelFormat::RGBA8888).unwrap();
    assert_eq!(second.get_buffer_ptr(), 0x6000_1000);
    assert_eq!(second.get_stride(), 4096);
    assert_eq!(pages.allocate(1), Ok(0x6000_3000));
}

#[test]
fn framebuffers_need_dimensions_that_fit() {
    let mut pages = PageAllocator::new();
    assert_eq!(
        Framebuffer::new(&mut pages, 0, 4, PixelFormat::RGB888).err(),
        Some(GraphicsError::InvalidDimensions)
    );
    assert_eq!(
        Framebuffer::new(&mut pages, 4, 0, PixelFormat::RGB888).err(),
        Some(GraphicsError::InvalidDimensions)
    );
    assert_eq!(
        Framebuffer::new(&mut pages, u32::MAX, 1, PixelFormat::RGB565).err(),
        Some(GraphicsError::InvalidDimensions)
    );
    assert_eq!(
        Framebuffer::new(&mut pages, 0x10000, 0x10000, PixelFormat::RGB565).err(),
        Some(GraphicsError::InvalidDimensions)
    );
    assert_eq!(pages.allocate(1), Ok(0x6000_0000));
}

#[test]
fn drawing_pixels() {
    let mut pages = PageAllocator::new();
    let mut fb = Framebuffer::new(&mut pages, 4, 3, PixelFormat::RGBA8888).unwrap();
    assert_eq!(fb.draw_pixel(1, 2, 0xAABBCC), Ok(()));
    assert_eq!(fb.pixel(1, 2), Some(0xAABBCC));
    assert_eq!(fb.pixel(2, 1), Some(0));
    assert_eq!(fb.draw_pixel(4, 0, 1), Err(GraphicsError::InvalidDimensions));
    assert_eq!(fb.draw_pixel(0, 3, 1), Err(GraphicsError::InvalidDimensions));
    assert_eq!(fb.clear(0x112233), Ok(()));
    for y in 0..3 {
        for x in 0..4 {
            assert_eq!(fb.pixel(x, y), Some(0x112233));
        }
    }
}

#[test]
fn rectangles_are_clipped_to_the_screen() {
    let mut pages = PageAllocator::new();
    let mut fb = Framebuffer::new(&mut pages, 6, 5, PixelFormat::RGBA8888).unwrap();
    assert_eq!(fb.draw_rectangle(4, 3, 10, 10, 9), Ok(()));
    assert_eq!(fb.draw_rectangle(1, 1, 2, 1, 5), Ok(()));
    assert_eq!(fb.draw_rectangle(6, 0, 3, 3, 7), Ok(()));
    assert_eq!(fb.draw_rectangle(0, 0, 0, 5, 7), Ok(()));
    assert_eq!(fb.draw_rectangle(u32::MAX, u32::MAX, u32::MAX, u32::MAX, 7), Ok(()));
    for y in 0..5u32 {
        for x in 0..6u32 {
            let expected = if x >= 4 && y >= 3 {
                9
            } else if y == 1 && (x == 1 || x == 2) {
                5
            } else {
                0
            };
            assert_eq!(fb.pixel(x, y), Some(expected), "pixel ({}, {})", x, y);
        }
    }
}

#[test]
fn surfaces() {
    let mut surface = Surface::new(3, 800, 600, PixelFormat::RGB565).unwrap();
    assert_eq!(surface.get_bounds(), (0, 0, 800, 600));
    assert!(surface.is_visible());
    surface.set_position(-5, 7);
    assert_eq!(surface.set_size(10, 20), Ok(()));
    assert_eq!(surface.set_size(0, 20), Err(GraphicsError::InvalidDimensions));
    assert_eq!(surface.set_size(10, 0), Err(GraphicsError::InvalidDimensions));
    assert_eq!(surface.get_bounds(), (-5, 7, 10, 20));
    surface.attach_buffer(0x1000);
    surface.set_z_order(4);
    surface.set_visible(false);
    assert!(!surface.is_visible());
}

#[test]
fn windows() {
    let mut window = Window::new(1, "Terminal", 10, 20, 300, 200);
    assert_eq!(window.get_bounds(), (10, 20, 300, 200));
    assert!(window.is_visible());
    window.set_minimized(true);
    assert!(!window.is_visible());
    window.set_minimized(false);
    window.set_maximized(true);
    window.set_focused(true);
    window.attach_surface(9);
    window.move_window(-1, -2);
    assert_eq!(window.resize_window(0, 1), Err(GraphicsError::InvalidDimensions));
    assert_eq!(window.resize_window(1, 0), Err(GraphicsError::InvalidDimensions));
    assert_eq!(window.resize_window(5, 6), Ok(()));
    assert_eq!(window.get_bounds(), (-1, -2, 5, 6));
    assert!(window.is_visible());
}

#[test]
fn the_compositor_hands_out_ids_in_order() {
    let mut compositor = Compositor::new();
    assert_eq!(compositor.get_window_count(), 0);
    assert_eq!(compositor.get_surface_count(), 0);
    assert!(compositor.get_framebuffer().is_none());
    assert_eq!(compositor.create_window("a", 0, 0, 10, 10), Ok(1));
    assert_eq!(compositor.create_window("b", 0, 0, 10, 10), Ok(2));
    assert_eq!(compositor.create_surface(10, 10, PixelFormat::RGBA8888), Ok(1));
    assert_eq!(compositor.get_window_count(), 2);
    assert_eq!(compositor.get_surface_count(), 1);
    assert_eq!(compositor.attach_surface_to_window(1, 1), Ok(()));
    assert_eq!(
        compositor.attach_surface_to_window(1, 2),
        Err(GraphicsError::InvalidFramebuffer)
    );
    assert_eq!(
        compositor.attach_surface_to_window(3, 1),
        Err(GraphicsError::InvalidFramebuffer)
    );
    assert!(compositor.get_window_mut(3).is_none());
    assert!(compositor.get_surface_mut(2).is_none());
    compositor.get_window_mut(2).unwrap().move_window(5, 6);
    assert_eq!(compositor.get_window_mut(2).unwrap().get_bounds(), (5, 6, 10, 10));
    compositor.get_surface_mut(1).unwrap().set_position(3, 4);
    assert_eq!(compositor.get_surface_mut(1).unwrap().get_bounds(), (3, 4, 10, 10));
    assert_eq!(compositor.get_window_count(), 2);
}

#[test]
fn focus_moves_from_window_to_window() {
    let mut compositor = Compositor::new();
    compositor.create_window("a", 0, 0, 10, 10).unwrap();
    compositor.create_window("b", 0, 0, 10, 10).unwrap();
    assert_eq!(compositor.set_window_focus(Some(1)), Ok(()));
    assert_eq!(compositor.set_window_focus(Some(2)), Ok(()));
    assert_eq!(compositor.set_window_focus(Some(3)), Err(GraphicsError::InvalidFramebuffer));
    assert_eq!(compositor.set_window_focus(None), Ok(()));
}

fn compositor_with_screen(pages: &mut PageAllocator) -> Compositor {
    let mut compositor = Compositor::new();
    compositor.initialize_framebuffer(pages, 64, 48, PixelFormat::RGBA8888).unwrap();
    compositor
}

#[test]
fn composite_needs_a_framebuffer() {
    let mut compositor = Compositor::new();
    assert_eq!(compositor.composite(), Err(GraphicsError::InvalidFramebuffer));
    let mut pages = PageAllocator::new();
    assert_eq!(
        compositor.initialize_framebuffer(&mut pages, 0, 1, PixelFormat::RGBA8888),
        Err(GraphicsError::InvalidDimensions)
    );
    assert_eq!(compositor.composite(), Err(GraphicsError::InvalidFramebuffer));
    assert_eq!(
        compositor.initialize_framebuffer(&mut pages, 4, 4, PixelFormat::RGBA8888),
        Ok(())
    );
    assert_eq!(compositor.composite(), Ok(()));
}

#[test]
fn composite_paints_the_windows_over_the_background() {
    let mut pages = PageAllocator::new();
    let mut c = compositor_with_screen(&mut pages);
    let w1 = c.create_window("one", 2, 3, 10, 40).unwrap();
    let s1 = c.create_surface(10, 40, PixelFormat::RGBA8888).unwrap();
    c.attach_surface_to_window(w1, s1).unwrap();
    let w2 = c.create_window("two", 8, 3, 4, 10).unwrap();
    let s2 = c.create_surface(4, 10, PixelFormat::RGBA8888).unwrap();
    c.attach_surface_to_window(w2, s2).unwrap();
    let _bare = c.create_window("no surface", 30, 0, 5, 40).unwrap();
    let w4 = c.create_window("minimized", 40, 0, 5, 40).unwrap();
    let s4 = c.create_surface(5, 40, PixelFormat::RGBA8888).unwrap();
    c.attach_surface_to_window(w4, s4).unwrap();
    c.get_window_mut(w4).unwrap().set_minimized(true);
    let w5 = c.create_window("hidden", 50, 0, 5, 40).unwrap();
    let s5 = c.create_surface(5, 40, PixelFormat::RGBA8888).unwrap();
    c.attach_surface_to_window(w5, s5).unwrap();
    c.get_surface_mut(s5).unwrap().set_visible(false);
    c.set_window_focus(Some(w2)).unwrap();
    c.get_framebuffer().map(|fb| assert_eq!(fb.pixel(0, 0), Some(0)));
    assert_eq!(c.composite(), Ok(()));
    let fb = c.get_framebuffer().unwrap();
    let unfocused = 0x7F7F7F;
    let focused = 0x4A90E2;
    let white = 0xFFFFFF;
    assert_eq!(fb.pixel(0, 0), Some(0));
    assert_eq!(fb.pixel(1, 3), Some(0));
    assert_eq!(fb.pixel(2, 2), Some(0));
    assert_eq!(fb.pixel(2, 3), Some(unfocused));
    assert_eq!(fb.pixel(7, 32), Some(unfocused));
    assert_eq!(fb.pixel(7, 34), Some(unfocused));
    assert_eq!(fb.pixel(7, 35), Some(white));
    assert_eq!(fb.pixel(7, 42), Some(white));
    assert_eq!(fb.pixel(7, 43), Some(0));
    assert_eq!(fb.pixel(12, 20), Some(0));
    assert_eq!(fb.pixel(8, 3), Some(focused));
    assert_eq!(fb.pixel(11, 34), Some(focused));
    assert_eq!(fb.pixel(11, 35), Some(white));
    assert_eq!(fb.pixel(8, 20), Some(focused));
    assert_eq!(fb.pixel(30, 0), Some(0));
    assert_eq!(fb.pixel(40, 0), Some(0));
    assert_eq!(fb.pixel(50, 0), Some(0));
}

#[test]
fn a_small_window_has_no_content_area() {
    let mut pages = PageAllocator::new();
    let mut c = compositor_with_screen(&mut pages);
    let w = c.create_window("small", 0, 0, 3, 10).unwrap();
    let s = c.create_surface(3, 10, PixelFormat::RGBA8888).unwrap();
    c.attach_surface_to_window(w, s).unwrap();
    let off = c.create_window("off screen", -4, 5, 20, 40).unwrap();
    let s = c.create_surface(3, 10, PixelFormat::RGBA8888).unwrap();
    c.attach_surface_to_window(off, s).unwrap();
    c.composite().unwrap();
    let fb = c.get_framebuffer().unwrap();
    assert_eq!(fb.pixel(0, 0), Some(0x7F7F7F));
    assert_eq!(fb.pixel(2, 31), Some(0x7F7F7F));
    assert_eq!(fb.pixel(2, 32), Some(0));
    assert_eq!(fb.pixel(3, 0), Some(0));
    assert_eq!(fb.pixel(10, 10), Some(0));
    c.get_window_mut(w).unwrap().set_minimized(true);
    c.composite().unwrap();
    assert_eq!(c.get_framebuffer().unwrap().pixel(0, 0), Some(0));
}

#[test]
fn test_graphics_subsystem() {
    let mut slot: Option<Compositor> = None;
    let mut pages = PageAllocator::new();
    assert_eq!(graphics_get_stats(&slot), (0, 0));
    assert_eq!(
        graphics_create_surface(&mut slot, 1, 1, PixelFormat::RGBA8888),
        Err(GraphicsError::InvalidFramebuffer)
    );
    assert_eq!(
        graphics_create_window(&mut slot, "w", 0, 0, 1, 1),
        Err(GraphicsError::InvalidFramebuffer)
    );
    assert_eq!(graphics_composite(&mut slot), Err(GraphicsError::InvalidFramebuffer));
    assert_eq!(
        graphics_init_framebuffer(&mut slot, &mut pages, 4, 4, PixelFormat::RGBA8888),
        Err(GraphicsError::InvalidFramebuffer)
    );
    assert_eq!(
        graphics_attach_surface_to_window(&mut slot, 1, 1),
        Err(GraphicsError::InvalidFramebuffer)
    );
    assert_eq!(
        graphics_set_window_focus(&mut slot, None),
        Err(GraphicsError::InvalidFramebuffer)
    );
    assert!(graphics_get_compositor(&mut slot).is_none());

    assert_eq!(graphics_init(&mut slot), Ok(()));
    assert_eq!(graphics_init(&mut slot), Err(GraphicsError::InvalidFramebuffer));
    assert!(graphics_get_compositor(&mut slot).is_some());
    assert_eq!(
        graphics_init_framebuffer(&mut slot, &mut pages, 192, 108, PixelFormat::RGBA8888),
        Ok(())
    );
    let surface1 = graphics_create_surface(&mut slot, 800, 600, PixelFormat::RGBA8888).unwrap();
    let surface2 = graphics_create_surface(&mut slot, 400, 300, PixelFormat::RGBA8888).unwrap();
    assert_ne!(surface1, surface2);
    assert_eq!((surface1, surface2), (1, 2));
    assert_eq!(graphics_create_window(&mut slot, "w", 1, 1, 20, 40), Ok(1));
    assert_eq!(graphics_attach_surface_to_window(&mut slot, 1, 2), Ok(()));
    assert_eq!(graphics_set_window_focus(&mut slot, Some(1)), Ok(()));
    assert_eq!(graphics_composite(&mut slot), Ok(()));
    assert_eq!(graphics_get_stats(&slot), (1, 2));
    let fb_pixel = slot.as_ref().unwrap().get_framebuffer().unwrap().pixel(1, 1);
    assert_eq!(fb_pixel, Some(0x4A90E2));
}

#[test]
fn a_framebuffer_needs_memory() {
    let mut pages = PageAllocator::new();
    let rest = (u64::MAX - 0x6000_0000 - 8191) as usize;
    assert_eq!(pages.allocate(rest), Ok(0x6000_0000));
    assert_eq!(
        Framebuffer::new(&mut pages, 64, 32, PixelFormat::RGBA8888).err(),
        Some(GraphicsError::OutOfMemory)
    );
    let mut compositor = Compositor::new();
    assert_eq!(
        compositor.initialize_framebuffer(&mut pages, 64, 32, PixelFormat::RGBA8888),
        Err(GraphicsError::OutOfMemory)
    );
    assert!(compositor.get_framebuffer().is_none());
    assert!(Framebuffer::new(&mut pages, 32, 32, PixelFormat::RGBA8888).is_ok());
    assert_eq!(
        Framebuffer::new(&mut pages, 1, 1, PixelFormat::RGB565).err(),
        Some(GraphicsError::OutOfMemory)
    );
}
