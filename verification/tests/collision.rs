//! Collision response of finite planes and boxes.

use snow_mpm::fixed::{Fx, FX_ONE};
use snow_mpm::plane::{Plane, Cube};
use snow_mpm::vector::Vector3;

fn to_f(raw: i64) -> f64 {
    raw as f64 / FX_ONE as f64
}

fn v3(x: i64, y: i64, z: i64) -> Vector3 {
    Vector3::new(Fx::from_int(x), Fx::from_int(y), Fx::from_int(z))
}

/// A static frictionless floor spanning x and z from the origin.
fn floor_plane() -> Plane {
    Plane::new(
        v3(0, 0, 0),
        v3(4, 0, 0),
        v3(0, 0, 4),
        Fx::zero(),
        Vector3::zero(),
        Vector3::zero(),
    )
}

#[test]
fn head_on_collision_cancels_normal_velocity() {
    // A particle just above the plane moving straight into it stops: the
    // normal velocity becomes zero once the contact triggers.
    let plane = floor_plane();
    let position = Vector3::new(Fx::from_int(2), Fx::ratio(1, 10000), Fx::from_int(2));
    let velocity = v3(0, -1, 0);
    let dt = Fx::ratio(1, 100);
    let out = plane.collide(position, velocity, dt);
    assert_eq!(out.x.raw, 0);
    assert_eq!(out.y.raw, 0);
    assert_eq!(out.z.raw, 0);
}

#[test]
fn frictionless_contact_keeps_tangential_velocity() {
    // With zero friction only the normal component is removed.
    let plane = floor_plane();
    let position = Vector3::new(Fx::from_int(2), Fx::ratio(1, 10000), Fx::from_int(2));
    let velocity = v3(1, -1, 0);
    let dt = Fx::ratio(1, 100);
    let out = plane.collide(position, velocity, dt);
    assert!((to_f(out.x.raw) - 1.0).abs() < 1e-6);
    assert!(to_f(out.y.raw).abs() < 1e-6);
    assert!(to_f(out.z.raw).abs() < 1e-6);
}

#[test]
fn friction_slows_sliding_contact() {
    // A frictional plane reduces the tangential speed by mu * |v_n|.
    let plane = Plane::new(
        v3(0, 0, 0),
        v3(4, 0, 0),
        v3(0, 0, 4),
        Fx::ratio(1, 2),
        Vector3::zero(),
        Vector3::zero(),
    );
    let position = Vector3::new(Fx::from_int(2), Fx::ratio(1, 10000), Fx::from_int(2));
    let velocity = v3(1, -1, 0);
    let dt = Fx::ratio(1, 100);
    let out = plane.collide(position, velocity, dt);
    // tangent (1,0,0), v_n = -1, factor 1 + 0.5 * (-1) / 1 = 0.5.
    assert!((to_f(out.x.raw) - 0.5).abs() < 1e-6, "{}", to_f(out.x.raw));
    assert!(to_f(out.y.raw).abs() < 1e-6);
}

#[test]
fn strong_friction_sticks_the_contact() {
    // When |tangent| <= -mu v_n the relative motion stops entirely.
    let plane = Plane::new(
        v3(0, 0, 0),
        v3(4, 0, 0),
        v3(0, 0, 4),
        Fx::from_int(2),
        Vector3::zero(),
        Vector3::zero(),
    );
    let position = Vector3::new(Fx::from_int(2), Fx::ratio(1, 10000), Fx::from_int(2));
    let velocity = v3(1, -1, 0);
    let dt = Fx::ratio(1, 100);
    let out = plane.collide(position, velocity, dt);
    assert_eq!(out.x.raw, 0);
    assert_eq!(out.y.raw, 0);
    assert_eq!(out.z.raw, 0);
}

#[test]
fn contact_outside_the_rectangle_is_ignored() {
    let plane = floor_plane();
    let position = Vector3::new(Fx::from_int(9), Fx::ratio(1, 10000), Fx::from_int(2));
    let velocity = v3(0, -1, 0);
    let dt = Fx::ratio(1, 100);
    let out = plane.collide(position, velocity, dt);
    assert_eq!(out.y.raw, velocity.y.raw);
}

#[test]
fn far_particle_is_untouched() {
    let plane = floor_plane();
    let position = v3(2, 3, 2);
    let velocity = v3(0, -1, 0);
    let dt = Fx::ratio(1, 100);
    let out = plane.collide(position, velocity, dt);
    assert_eq!(out.x.raw, velocity.x.raw);
    assert_eq!(out.y.raw, velocity.y.raw);
    assert_eq!(out.z.raw, velocity.z.raw);
}

#[test]
fn crossing_detection_triggers_before_passing_through() {
    // The particle is above the contact tolerance but would cross the plane
    // within one step: the sign flip triggers the response.
    let plane = floor_plane();
    let position = Vector3::new(Fx::from_int(2), Fx::ratio(5, 1000), Fx::from_int(2));
    let velocity = v3(0, -1, 0);
    let dt = Fx::ratio(1, 100);
    let out = plane.collide(position, velocity, dt);
    assert_eq!(out.y.raw, 0);
}

#[test]
fn cube_faces_collide_in_sequence() {
    let cube = Cube::new(
        v3(0, 0, 0),
        v3(4, 0, 0),
        v3(0, 4, 0),
        v3(0, 0, 4),
        Fx::zero(),
        Vector3::zero(),
        Vector3::zero(),
    );
    assert!(!cube.is_stationary());
    // Head-on against the bottom face from just above it.
    let position = Vector3::new(Fx::from_int(2), Fx::ratio(1, 10000), Fx::from_int(2));
    let velocity = v3(0, -1, 0);
    let out = cube.collide(position, velocity, Fx::ratio(1, 100));
    assert_eq!(out.y.raw, 0);
}

#[test]
fn planes_advect_rigidly() {
    let mut plane = Plane::new(
        v3(0, 0, 0),
        v3(4, 0, 0),
        v3(0, 0, 4),
        Fx::zero(),
        v3(0, 1, 0),
        Vector3::zero(),
    );
    plane.update_position(Fx::ratio(1, 2));
    assert_eq!(plane.o.y.raw, FX_ONE / 2);
    assert_eq!(plane.o.x.raw, 0);
}
