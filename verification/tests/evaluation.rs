use valle_motion::eval::{
    eval_one, interpolate_segment, EvalInputs, Kernel, KernelError, LayoutInputs, MotionContext,
    PhaseContext, ResolvedProps, UnitContext,
};
use valle_motion::expr::{
    CompareOp, ContextInput, Expr, ExprId, Extrapolation, InterpolateStop, PhaseKind, TemplatePart,
};
use valle_motion::faults::EvalError;
use valle_motion::folding::fold_constants;
use valle_motion::passes::{eval_all, eval_layout_bounds, eval_post_layout, eval_slice, eval_units};
use valle_motion::props::resolve_props;
use valle_motion::recording::{Point, Rect, Rgba};
use valle_motion::scalar::Scalar;
use valle_motion::table::Entry;
use valle_motion::value::{
    css_token, Angle, AngleUnit, ControlType, ControlsSchema, Length, Length2, MotionEasing,
    MotionValue, PropControl,
};

fn num(x: f64) -> Scalar {
    Scalar::from_bits(x.to_bits())
}

fn f(x: Scalar) -> f64 {
    f64::from_bits(x.to_bits())
}

fn number(x: f64) -> MotionValue {
    MotionValue::Number(num(x))
}

fn degrees(a: &Angle) -> f64 {
    match a.unit {
        AngleUnit::Deg => f(a.value),
        AngleUnit::Rad => f(a.value).to_degrees(),
        AngleUnit::Turn => f(a.value) * 360.0,
    }
}

fn bezier(x1: f64, y1: f64, x2: f64, y2: f64, t: f64) -> f64 {
    if t <= 0.0 || t >= 1.0 {
        return t;
    }
    let at = |a: f64, b: f64, s: f64| {
        3.0 * a * s * (1.0 - s) * (1.0 - s) + 3.0 * b * s * s * (1.0 - s) + s * s * s
    };
    let (mut low, mut high) = (0.0, 1.0);
    for _ in 0..80 {
        let mid = (low + high) / 2.0;
        if at(x1, x2, mid) < t {
            low = mid;
        } else {
            high = mid;
        }
    }
    at(y1, y2, (low + high) / 2.0)
}

fn ease(easing: MotionEasing, t: f64) -> f64 {
    match easing {
        MotionEasing::Linear => t,
        MotionEasing::Ease => bezier(0.25, 0.1, 0.25, 1.0, t),
        MotionEasing::EaseIn => bezier(0.42, 0.0, 1.0, 1.0, t),
        MotionEasing::EaseOut => bezier(0.0, 0.0, 0.58, 1.0, t),
        MotionEasing::EaseInOut => bezier(0.42, 0.0, 0.58, 1.0, t),
        MotionEasing::CubicBezier { x1, y1, x2, y2 } => bezier(f(x1), f(y1), f(x2), f(y2), t),
    }
}

fn kernel(k: &Kernel) -> Result<MotionValue, KernelError> {
    match k {
        Kernel::Add { a, b } => Ok(number(f(*a) + f(*b))),
        Kernel::Sub { a, b } => Ok(number(f(*a) - f(*b))),
        Kernel::Mul { a, b } => Ok(number(f(*a) * f(*b))),
        Kernel::Div { a, b } => Ok(number(f(*a) / f(*b))),
        Kernel::Fraction {
            start,
            span,
            input,
            easing,
        } => {
            let raw = (f(*input) - f(*start)) / f(*span);
            Ok(number(easing.map_or(raw, |e| ease(e, raw))))
        }
        Kernel::Lerp { a, b, t } => Ok(number(f(*a) + (f(*b) - f(*a)) * f(*t))),
        Kernel::Degrees { angle } => Ok(number(degrees(angle))),
        Kernel::Mix { a, b, t } => {
            let lerp = |x: f64, y: f64| x + (y - x) * f(*t);
            let (alpha_a, alpha_b) = (f64::from(a.a) / 255.0, f64::from(b.a) / 255.0);
            let alpha = lerp(alpha_a, alpha_b).clamp(0.0, 1.0);
            let channel = |x: u8, y: u8| {
                if alpha <= 0.0 {
                    0
                } else {
                    (lerp(f64::from(x) * alpha_a, f64::from(y) * alpha_b) / alpha)
                        .round()
                        .clamp(0.0, 255.0) as u8
                }
            };
            Ok(MotionValue::Color(Rgba {
                r: channel(a.r, b.r),
                g: channel(a.g, b.g),
                b: channel(a.b, b.b),
                a: (alpha * 255.0).round() as u8,
            }))
        }
        _ => Err(KernelError::Domain),
    }
}

fn tokens(v: &MotionValue) -> String {
    match v {
        MotionValue::Number(x) => format!("{}", f(*x)),
        other => format!("{other:?}"),
    }
}

fn phase(frame: u32) -> PhaseContext {
    PhaseContext {
        active: true,
        frame,
        elapsed_frames: frame as i32,
        duration_frames: 2,
        progress: num(0.0),
    }
}

fn context(frame: u32) -> MotionContext {
    MotionContext {
        local_frame: frame,
        progress: num(f64::from(frame) / 8.0),
        composition_seconds: num(f64::from(frame) / 30.0),
        duration_frames: 8,
        fps_numerator: num(30.0),
        fps_denominator: 1,
        fps: num(30.0),
        enter: phase(frame.min(1)),
        hold: phase(0),
        hold_iteration: 0,
        hold_cycle_frame: 0,
        hold_cycle_progress: num(0.0),
        exit: phase(0),
    }
}

fn all(exprs: &Vec<Expr>, frame: u32) -> Result<Vec<MotionValue>, EvalError> {
    let ctx = context(frame);
    let props = ResolvedProps::empty();
    let signals = vec![];
    let inputs = EvalInputs {
        ctx: &ctx,
        props: &props,
        signals: &signals,
        unit: None,
        viewport: None,
    };
    eval_all(&kernel, &tokens, exprs, &inputs)
}

/// Verify easing changes evaluated values, including cubic-bezier overshoot.
#[test]
fn easings_actually_bend_the_curve_and_overshoot_passes_the_endpoint() {
    let at = |easing: MotionEasing, t: f64| -> f64 {
        let stops = [
            InterpolateStop {
                input: num(0.0),
                output: number(0.0),
            },
            InterpolateStop {
                input: num(1.0),
                output: number(1.0),
            },
        ];
        let MotionValue::Number(value) =
            interpolate_segment(&kernel, 0, num(t), &stops[0], &stops[1], Some(easing)).unwrap()
        else {
            panic!("number");
        };
        f(value)
    };

    let linear_mid = at(MotionEasing::Linear, 0.5);
    assert!(
        (linear_mid - 0.5).abs() < 1e-12,
        "the linear midpoint is 0.5"
    );
    assert!(
        at(MotionEasing::EaseOut, 0.5) > linear_mid + 0.05,
        "easeOut must exceed the linear midpoint",
    );
    assert!(
        at(MotionEasing::EaseIn, 0.5) < linear_mid - 0.05,
        "easeIn must remain below the linear midpoint",
    );

    // Unclamped Bezier y values permit back-out overshoot.
    let back_out = MotionEasing::CubicBezier {
        x1: num(0.34),
        y1: num(1.56),
        x2: num(0.64),
        y2: num(1.0),
    };
    let peak = (60..=90)
        .map(|step| at(back_out, f64::from(step) / 100.0))
        .fold(f64::NEG_INFINITY, f64::max);
    assert!(
        peak > 1.0,
        "elastic easing must overshoot; actual peak {peak}"
    );
    assert!(
        (at(back_out, 1.0) - 1.0).abs() < 1e-12,
        "the endpoint must remain exactly one"
    );
}

/// Base evaluation skips unit expressions; per-unit evaluation recomputes only their dependent
/// subgraph.
#[test]
fn unit_expressions_are_deferred_to_per_unit_evaluation() {
    let exprs = vec![
        Expr::Context {
            input: ContextInput::LocalFrame,
        },
        Expr::Context {
            input: ContextInput::UnitIndex,
        },
        Expr::Mul {
            lhs: ExprId(1),
            rhs: ExprId(1),
        },
    ];
    let ctx = context(3);
    let props = ResolvedProps::empty();
    let signals = vec![];
    let inputs = EvalInputs {
        ctx: &ctx,
        props: &props,
        signals: &signals,
        unit: None,
        viewport: None,
    };
    let base = eval_all(&kernel, &tokens, &exprs, &inputs).unwrap();
    assert_eq!(
        base[0],
        number(3.0),
        "evaluate expressions independent of unit context normally"
    );

    let unit = UnitContext {
        index: 4,
        count: 6,
        start: 12,
        end: 15,
    };
    let values = eval_units(
        &kernel,
        &tokens,
        &exprs,
        &base,
        &inputs,
        unit,
        &vec![],
        &vec![],
    )
    .unwrap();
    assert_eq!(
        values[0], base[0],
        "reuse base values for expressions independent of unit context"
    );
    assert_eq!(values[1], number(4.0));
    assert_eq!(
        values[2],
        number(16.0),
        "recompute transitive dependencies"
    );
    let elsewhere = EvalInputs {
        ctx: &ctx,
        props: &props,
        signals: &signals,
        unit: Some(UnitContext {
            index: 1,
            count: 2,
            start: 0,
            end: 1,
        }),
        viewport: None,
    };
    let again = eval_units(
        &kernel,
        &tokens,
        &exprs,
        &base,
        &elsewhere,
        unit,
        &vec![],
        &vec![],
    )
    .unwrap();
    assert_eq!(again, values);
}

/// Reject unit inputs outside per-unit evaluation.
#[test]
fn unit_input_without_a_unit_is_an_error_not_a_zero() {
    let ctx = context(3);
    let props = ResolvedProps::empty();
    let signals = vec![];
    assert_eq!(
        eval_one(
            &kernel,
            &tokens,
            0,
            &Expr::Context {
                input: ContextInput::UnitIndex,
            },
            &vec![],
            &EvalInputs {
                ctx: &ctx,
                props: &props,
                signals: &signals,
                unit: None,
                viewport: None,
            },
            &LayoutInputs {
                bounds: None,
                projected: None,
            },
        ),
        Err(EvalError::UnitOutsidePerUnit { at: 0 })
    );
}

#[test]
fn forward_pass_covers_context_arithmetic_select_and_interpolate() {
    let exprs = vec![
        Expr::Context {
            input: ContextInput::PhaseFrame {
                phase: PhaseKind::Enter,
            },
        },
        Expr::Const {
            value: number(2.0),
        },
        Expr::Mul {
            lhs: ExprId(0),
            rhs: ExprId(1),
        },
        Expr::Const {
            value: number(0.0),
        },
        Expr::Compare {
            op: CompareOp::Gt,
            lhs: ExprId(2),
            rhs: ExprId(3),
        },
        Expr::Interpolate {
            input: ExprId(2),
            stops: vec![
                InterpolateStop {
                    input: num(0.0),
                    output: MotionValue::Length(Length::px(num(0.0))),
                },
                InterpolateStop {
                    input: num(4.0),
                    output: MotionValue::Length(Length::px(num(40.0))),
                },
            ],
            easings: vec![MotionEasing::Linear],
            extrapolate_left: Extrapolation::Clamp,
            extrapolate_right: Extrapolation::Clamp,
        },
        Expr::Const {
            value: MotionValue::Str("yes".into()),
        },
        Expr::Const {
            value: MotionValue::Str("no".into()),
        },
        Expr::Select {
            condition: ExprId(4),
            when_true: ExprId(6),
            when_false: ExprId(7),
        },
    ];
    let values = all(&exprs, 1).unwrap();
    assert_eq!(values[2], number(2.0));
    assert_eq!(values[5], MotionValue::Length(Length::px(num(20.0))));
    assert_eq!(values[8], MotionValue::Str("yes".into()));
}

#[test]
fn select_enum_compares_with_authored_string_literals() {
    let exprs = vec![
        Expr::Const {
            value: MotionValue::Enum("multiplane".into()),
        },
        Expr::Const {
            value: MotionValue::Str("multiplane".into()),
        },
        Expr::Compare {
            op: CompareOp::Eq,
            lhs: ExprId(0),
            rhs: ExprId(1),
        },
    ];
    let values = all(&exprs, 0).unwrap();
    assert_eq!(values[2], MotionValue::Bool(true));
}

#[test]
fn division_by_zero_and_non_finite_results_fail_closed() {
    let exprs = vec![
        Expr::Const {
            value: number(1.0),
        },
        Expr::Const {
            value: number(0.0),
        },
        Expr::Div {
            lhs: ExprId(0),
            rhs: ExprId(1),
        },
    ];
    let error = all(&exprs, 0).unwrap_err();
    assert_eq!(error, EvalError::DivisionByZero { at: 2 });
}

#[test]
fn an_overflowing_product_is_not_a_value() {
    let exprs = vec![
        Expr::Const {
            value: number(1.0e300),
        },
        Expr::Mul {
            lhs: ExprId(0),
            rhs: ExprId(0),
        },
    ];
    let error = all(&exprs, 0).unwrap_err();
    assert!(matches!(error, EvalError::NonFinite { at: 1, .. }), "{error:?}");
}

#[test]
fn css_tokens_cover_the_typed_value_domain() {
    assert_eq!(css_token(&number(10.0), &tokens), "10");
    assert_eq!(
        css_token(&MotionValue::Length(Length::px(num(12.0))), &tokens),
        "12px"
    );
    assert_eq!(
        css_token(
            &MotionValue::Length2(Length2::px(num(0.0), num(24.0))),
            &tokens
        ),
        "0px 24px"
    );
    assert_eq!(
        css_token(&MotionValue::Angle(Angle::deg(num(90.0))), &tokens),
        "90deg"
    );
}

#[test]
fn template_expression_formats_scalar_css_tokens_deterministically() {
    let exprs = vec![
        Expr::Const {
            value: number(1.5),
        },
        Expr::Const {
            value: MotionValue::Angle(Angle::deg(num(20.0))),
        },
        Expr::Template {
            parts: vec![
                TemplatePart::Text {
                    value: "blur(".into(),
                },
                TemplatePart::Expr { expr: ExprId(0) },
                TemplatePart::Text {
                    value: "px) hue-rotate(".into(),
                },
                TemplatePart::Expr { expr: ExprId(1) },
                TemplatePart::Text { value: ")".into() },
            ],
        },
    ];
    let values = all(&exprs, 0).unwrap();
    assert_eq!(
        values[2],
        MotionValue::Str("blur(1.5px) hue-rotate(20deg)".into())
    );
}

#[test]
fn a_template_over_its_budget_fails() {
    let exprs = vec![
        Expr::Const {
            value: MotionValue::Str("x".repeat(16 * 1024)),
        },
        Expr::Template {
            parts: vec![
                TemplatePart::Expr { expr: ExprId(0) },
                TemplatePart::Text { value: "x".into() },
            ],
        },
    ];
    assert_eq!(
        all(&exprs, 0).unwrap_err(),
        EvalError::TemplateTooLong { at: 1 }
    );
}

fn rect(x: f64, y: f64, width: f64, height: f64) -> Rect {
    Rect {
        x: num(x),
        y: num(y),
        width: num(width),
        height: num(height),
    }
}

fn vec2(x: f64, y: f64) -> Point {
    Point {
        x: num(x),
        y: num(y),
    }
}

fn rgba(r: u8, g: u8, b: u8, a: u8) -> Rgba {
    Rgba { r, g, b, a }
}

fn length2(x: f64, y: f64) -> MotionValue {
    MotionValue::Length2(Length2::px(num(x), num(y)))
}

#[test]
fn interpolate_covers_every_continuous_value_type() {
    let pairs = [
        (number(0.0), number(10.0)),
        (
            MotionValue::Length(Length::px(num(0.0))),
            MotionValue::Length(Length::px(num(10.0))),
        ),
        (length2(0.0, 10.0), length2(10.0, 20.0)),
        (
            MotionValue::Angle(Angle::deg(num(0.0))),
            MotionValue::Angle(Angle::deg(num(90.0))),
        ),
        (
            MotionValue::Color(rgba(255, 0, 0, 255)),
            MotionValue::Color(rgba(0, 0, 255, 255)),
        ),
        (
            MotionValue::Vec2(vec2(0.0, 10.0)),
            MotionValue::Vec2(vec2(10.0, 20.0)),
        ),
        (
            MotionValue::Rect(rect(0.0, 10.0, 20.0, 30.0)),
            MotionValue::Rect(rect(10.0, 20.0, 30.0, 40.0)),
        ),
    ];
    let mut exprs = vec![Expr::Const {
        value: number(0.5),
    }];
    for (from, to) in pairs {
        exprs.push(Expr::Interpolate {
            input: ExprId(0),
            stops: vec![
                InterpolateStop {
                    input: num(0.0),
                    output: from,
                },
                InterpolateStop {
                    input: num(1.0),
                    output: to,
                },
            ],
            easings: vec![],
            extrapolate_left: Extrapolation::Clamp,
            extrapolate_right: Extrapolation::Clamp,
        });
    }
    let values = all(&exprs, 1).unwrap();
    assert_eq!(values[1], number(5.0));
    assert_eq!(values[2], MotionValue::Length(Length::px(num(5.0))));
    assert_eq!(values[3], length2(5.0, 15.0));
    assert_eq!(values[4], MotionValue::Angle(Angle::deg(num(45.0))));
    assert_eq!(values[5], MotionValue::Color(rgba(128, 0, 128, 255)));
    assert_eq!(values[6], MotionValue::Vec2(vec2(5.0, 15.0)));
    assert_eq!(
        values[7],
        MotionValue::Rect(rect(5.0, 15.0, 25.0, 35.0))
    );
}

#[test]
fn unlike_stops_do_not_blend() {
    let stop = |input: f64, output: MotionValue| InterpolateStop {
        input: num(input),
        output,
    };
    assert_eq!(
        interpolate_segment(
            &kernel,
            7,
            num(0.5),
            &stop(0.0, number(0.0)),
            &stop(1.0, length2(0.0, 0.0)),
            None,
        ),
        Err(EvalError::TypeMismatch {
            at: 7,
            op: "interpolate"
        })
    );
    assert_eq!(
        interpolate_segment(
            &kernel,
            7,
            num(0.5),
            &stop(1.0, number(0.0)),
            &stop(1.0, number(2.0)),
            None,
        ),
        Err(EvalError::BadInterpolate { at: 7 })
    );
}

fn amount_controls() -> ControlsSchema {
    ControlsSchema {
        props: vec![Entry {
            key: "amount".into(),
            value: PropControl {
                control: ControlType::Number {
                    min: Some(num(0.0)),
                    max: Some(num(1.0)),
                    step: Some(num(0.1)),
                },
                default: Some(number(0.5)),
                required: false,
            },
        }],
        cues: vec![],
    }
}

#[test]
fn prop_resolution_applies_defaults_bounds_and_unknown_name_checks() {
    let controls = amount_controls();
    let resolved = resolve_props(&controls, &vec![]).unwrap();
    assert_eq!(resolved.get("amount"), Some(&number(0.5)));

    let out_of_range = vec![Entry {
        key: "amount".into(),
        value: number(2.0),
    }];
    assert_eq!(
        resolve_props(&controls, &out_of_range).err(),
        Some(EvalError::InvalidProp {
            name: "amount".into()
        })
    );
    let unknown = vec![Entry {
        key: "other".into(),
        value: number(0.5),
    }];
    assert_eq!(
        resolve_props(&controls, &unknown).err(),
        Some(EvalError::UnknownProp {
            name: "other".into()
        })
    );
}

#[test]
fn a_required_prop_without_value_is_missing() {
    let mut controls = amount_controls();
    controls.props[0].value.default = None;
    controls.props[0].value.required = true;
    assert_eq!(
        resolve_props(&controls, &vec![]).err(),
        Some(EvalError::MissingProp {
            name: "amount".into()
        })
    );
}

fn frame_scaled() -> Vec<Expr> {
    vec![
        Expr::Context {
            input: ContextInput::LocalFrame,
        },
        Expr::Const {
            value: number(3.0),
        },
        Expr::Const {
            value: number(4.0),
        },
        Expr::Mul {
            lhs: ExprId(1),
            rhs: ExprId(2),
        },
        Expr::Add {
            lhs: ExprId(0),
            rhs: ExprId(3),
        },
    ]
}

#[test]
fn a_slice_has_the_values_of_the_whole() {
    let exprs = frame_scaled();
    let ctx = context(5);
    let props = ResolvedProps::empty();
    let signals = vec![];
    let inputs = EvalInputs {
        ctx: &ctx,
        props: &props,
        signals: &signals,
        unit: None,
        viewport: None,
    };
    let whole = eval_all(&kernel, &tokens, &exprs, &inputs).unwrap();
    let live = vec![ExprId(1), ExprId(2), ExprId(3)];
    let slice = eval_slice(&kernel, &tokens, &exprs, &inputs, &live).unwrap();
    assert_eq!(slice[3].as_ref(), Some(&whole[3]));
    assert_eq!(slice[3], Some(number(12.0)));
    assert!(slice[4].is_none());
}

#[test]
fn a_slice_holds_what_its_expressions_are_built_from() {
    let exprs = vec![
        Expr::Const {
            value: number(2.0),
        },
        Expr::Const {
            value: number(3.0),
        },
        Expr::Add {
            lhs: ExprId(0),
            rhs: ExprId(1),
        },
        Expr::Const {
            value: number(9.0),
        },
    ];
    let ctx = context(0);
    let props = ResolvedProps::empty();
    let signals = vec![];
    let inputs = EvalInputs {
        ctx: &ctx,
        props: &props,
        signals: &signals,
        unit: None,
        viewport: None,
    };
    let slice = eval_slice(&kernel, &tokens, &exprs, &inputs, &vec![ExprId(2)]).unwrap();
    assert_eq!(slice[2], Some(number(5.0)));
    assert_eq!(slice[0], Some(number(2.0)));
    assert_eq!(slice[1], Some(number(3.0)));
    assert!(slice[3].is_none());
    let none = eval_slice(&kernel, &tokens, &exprs, &inputs, &vec![ExprId(40)]).unwrap();
    assert!(none.iter().all(Option::is_none));
}

#[test]
fn the_least_unknown_prop_is_named_and_resolved_props_ascend() {
    let entry = |key: &str| Entry {
        key: key.into(),
        value: number(0.5),
    };
    assert_eq!(
        resolve_props(
            &amount_controls(),
            &vec![entry("amount"), entry("b"), entry("c")]
        )
        .err(),
        Some(EvalError::UnknownProp { name: "b".into() })
    );
    let mut controls = amount_controls();
    let mut more = amount_controls();
    more.props[0].key = "zoom".into();
    controls.props.append(&mut more.props);
    let resolved = resolve_props(&controls, &vec![entry("zoom")]).unwrap();
    let names: Vec<&str> = resolved.values.iter().map(|e| e.key.as_str()).collect();
    assert_eq!(names, ["amount", "zoom"]);
}

#[test]
fn folding_replaces_what_no_frame_changes() {
    let controls = ControlsSchema {
        props: vec![],
        cues: vec![],
    };
    let folded = fold_constants(&kernel, &tokens, &frame_scaled(), &controls);
    assert_eq!(folded[3], Some(number(12.0)));
    assert_eq!(folded[4], None);
    assert_eq!(all(&frame_scaled(), 2).unwrap()[3], number(12.0));
}

#[test]
fn bounds_are_read_only_after_layout() {
    let exprs = vec![Expr::NodeBounds { key: "card".into() }];
    let ctx = context(0);
    let props = ResolvedProps::empty();
    let signals = vec![];
    let inputs = EvalInputs {
        ctx: &ctx,
        props: &props,
        signals: &signals,
        unit: None,
        viewport: None,
    };
    let base = eval_all(&kernel, &tokens, &exprs, &inputs).unwrap();
    let boxes = vec![Entry {
        key: "card".into(),
        value: rect(1.0, 2.0, 3.0, 4.0),
    }];
    let settled = eval_layout_bounds(&kernel, &tokens, &exprs, &base, &inputs, &boxes).unwrap();
    assert_eq!(settled[0], MotionValue::Rect(rect(1.0, 2.0, 3.0, 4.0)));
    assert_eq!(
        eval_layout_bounds(&kernel, &tokens, &exprs, &base, &inputs, &vec![]),
        Err(EvalError::MissingBoundsTarget { key: "card".into() })
    );
}

#[test]
fn anchors_are_read_only_after_projection() {
    let exprs = vec![Expr::Project3D {
        scene_key: "globe".into(),
        anchor_key: "mesh::tip".into(),
    }];
    let ctx = context(0);
    let props = ResolvedProps::empty();
    let signals = vec![];
    let inputs = EvalInputs {
        ctx: &ctx,
        props: &props,
        signals: &signals,
        unit: None,
        viewport: None,
    };
    let base = eval_all(&kernel, &tokens, &exprs, &inputs).unwrap();
    assert_eq!(
        eval_post_layout(&kernel, &tokens, &exprs, &base, &inputs, &vec![], &vec![]),
        Err(EvalError::MissingProject3DTarget {
            scene_key: "globe".into(),
            anchor_key: "mesh::tip".into()
        })
    );
}

#[test]
fn a_missing_cue_and_a_missing_viewport_are_errors() {
    let cue = vec![Expr::Cue {
        name: "beat".into(),
        field: valle_motion::expr::CueField::Progress,
    }];
    assert_eq!(
        all(&cue, 0).unwrap_err(),
        EvalError::MissingCue {
            name: "beat".into()
        }
    );
    let width = vec![Expr::Context {
        input: ContextInput::ViewportWidth,
    }];
    assert_eq!(
        all(&width, 0).unwrap_err(),
        EvalError::ViewportUnavailable { at: 0 }
    );
    let dangling = vec![Expr::Neg { input: ExprId(9) }];
    assert_eq!(
        all(&dangling, 0).unwrap_err(),
        EvalError::BadExpr {
            at: 0,
            referenced: 9
        }
    );
}

#[test]
fn errors_read_as_sentences() {
    assert_eq!(
        EvalError::UnknownProp {
            name: "other".into()
        }
        .message(),
        "unknown prop `other`"
    );
    assert_eq!(
        EvalError::MissingCue {
            name: "beat".into()
        }
        .message(),
        "cue signal `beat` is not resolved"
    );
}
