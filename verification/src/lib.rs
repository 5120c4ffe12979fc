use vstd::prelude::*;

pub mod boundary;
pub mod fixed;
pub mod input;
pub mod level;
pub mod motion;
pub mod obstacles;
pub mod player;
pub mod response;
pub mod tick;
pub mod vec2;

verus! {

/// A body at rest in the interior of an arena with no obstacles stays exactly
/// where it is: one tick with nothing held changes nothing.
pub proof fn lemma_idle_tick_keeps_rest(m: player::PlayerModel, lv: level::LevelModel,
    inp: input::InputSnapshot, dt: int)
    requires
        player::player_wf(m),
        level::level_wf(lv),
        m.velocity == (vec2::Vec2Model { x: 0, y: 0 }),
        m.spin == 0,
        m.rotation == 0,
        !inp.move_left && !inp.move_right && !inp.move_up && !inp.move_down,
        !inp.spin_left && !inp.spin_right && !inp.grow_scale && !inp.shrink_scale,
        lv.min.x + player::effective_radius(m) <= m.position.x <= lv.max.x
            - player::effective_radius(m),
        lv.min.y + player::effective_radius(m) <= m.position.y <= lv.max.y
            - player::effective_radius(m),
        0 <= dt,
    ensures
        tick::tick_model(m, inp, dt, lv, Seq::empty()) == m,
{
    let m1 = tick::input_applied(m, inp);
    assert(m1 == m);
    let m2 = tick::scale_confined(m1);
    assert(m2 == m);
    fixed::lemma_tdiv_bounds(0, m.scale);
    fixed::lemma_tdiv_bounds(0, fixed::UNIT as int);
    fixed::lemma_tdiv_bounds(player::MAX_SPIN * fixed::UNIT, m.scale);
    assert(motion::wrap_angle(0) == 0) by {
        fixed::lemma_tdiv_bounds(0, player::FULL_TURN as int);
        assert(fixed::tdiv(0, player::FULL_TURN as int) * player::FULL_TURN == 0)
            by (nonlinear_arith)
            requires
                fixed::tdiv(0, player::FULL_TURN as int) == 0,
        {
        }
    }
    assert(vec2::len_sq(m.velocity) == 0);
    let m3 = motion::integrated(m2, dt);
    assert(m3 == m);
    let m4 = tick::boundary_confined(m3, lv);
    assert(m4 == m);
    assert(boundary::wall_collisions(m.position, lv, player::effective_radius(m))
        =~= Seq::<player::CollisionModel>::empty());
    assert(tick::tick_collisions(m, inp, dt, lv, Seq::empty())
        =~= Seq::<player::CollisionModel>::empty());
}

} // verus!
