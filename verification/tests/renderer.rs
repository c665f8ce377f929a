use spitfire::renderer::{
    submit_commands, vertex_layout, GlowBatch, GlowBlending, GlowCommand, GlowTextureFiltering,
    GlowTextureFormat, GlowUniformValue, GlowVertexAttrib, GL_DST_COLOR, GL_LINEAR, GL_NEAREST,
    GL_ONE, GL_ONE_MINUS_SRC_ALPHA, GL_RED, GL_RGB, GL_RGBA, GL_SRC_ALPHA, GL_TEXTURE0, GL_ZERO,
};

#[test]
fn blending_maps_to_gl_factor_pairs() {
    assert_eq!(GlowBlending::Disabled.into_gl(), None);
    assert_eq!(
        GlowBlending::Alpha.into_gl(),
        Some((GL_SRC_ALPHA, GL_ONE_MINUS_SRC_ALPHA))
    );
    assert_eq!(GlowBlending::Multiply.into_gl(), Some((GL_DST_COLOR, GL_ZERO)));
    assert_eq!(GlowBlending::Additive.into_gl(), Some((GL_ONE, GL_ONE)));
    assert_eq!(GlowBlending::default(), GlowBlending::Disabled);
}

#[test]
fn filtering_and_format_map_to_gl() {
    assert_eq!(
        GlowTextureFiltering::Nearest.into_gl(),
        (GL_NEAREST as i32, GL_NEAREST as i32)
    );
    assert_eq!(
        GlowTextureFiltering::Linear.into_gl(),
        (GL_LINEAR as i32, GL_LINEAR as i32)
    );
    assert_eq!(GlowTextureFormat::Rgba.into_gl(), GL_RGBA);
    assert_eq!(GlowTextureFormat::Rgb.into_gl(), GL_RGB);
    assert_eq!(GlowTextureFormat::Monochromatic.into_gl(), GL_RED);
}

#[test]
fn vertex_attrib_channels() {
    assert_eq!(
        GlowVertexAttrib::Float { channels: 3, normalized: false }.channels(),
        3
    );
    assert_eq!(GlowVertexAttrib::Integer { channels: 2 }.channels(), 2);
}

#[test]
fn vertex_layout_computes_stride_and_offsets() {
    let attribs = [
        GlowVertexAttrib::Float { channels: 2, normalized: false },
        GlowVertexAttrib::Float { channels: 3, normalized: false },
        GlowVertexAttrib::Float { channels: 4, normalized: false },
    ];
    let (stride, offsets) = vertex_layout(&attribs);
    assert_eq!(stride, 36);
    assert_eq!(offsets, vec![0, 8, 20]);
}

fn batch(program: Option<u32>, blending: Option<(u32, u32)>) -> GlowBatch {
    GlowBatch {
        shader_program: program,
        uniforms: Vec::new(),
        textures: Vec::new(),
        blending,
        scissor: None,
        wireframe: false,
    }
}

#[test]
fn batch_equality_is_by_value() {
    let mut a = batch(Some(1), None);
    a.uniforms.push(("u_color".to_owned(), GlowUniformValue::F1(7)));
    let mut b = batch(Some(1), None);
    b.uniforms.push(("u_color".to_owned(), GlowUniformValue::F1(7)));
    assert!(a == b);
    b.uniforms[0].1 = GlowUniformValue::F1(8);
    assert!(a != b);
    b.uniforms[0].1 = GlowUniformValue::F1(7);
    b.wireframe = true;
    assert!(a != b);
}

#[test]
fn uniform_values_compare_by_bits() {
    assert_eq!(GlowUniformValue::F2([1, 2]), GlowUniformValue::F2([1, 2]));
    assert_ne!(GlowUniformValue::F2([1, 2]), GlowUniformValue::F2([1, 3]));
    assert_ne!(GlowUniformValue::F1(0), GlowUniformValue::I1(0));
}

fn count_use_program(commands: &[GlowCommand]) -> usize {
    commands
        .iter()
        .filter(|c| matches!(c, GlowCommand::UseProgram(_)))
        .count()
}

fn count_blending(commands: &[GlowCommand]) -> usize {
    commands
        .iter()
        .filter(|c| matches!(c, GlowCommand::Blending(_)))
        .count()
}

#[test]
fn shared_shader_is_bound_once_but_blending_changes_twice() {
    // Batch A: triangles 0..2, shader X, alpha blending.
    // Batch B: triangles 2..5, shader X, additive blending.
    let a = batch(Some(7), GlowBlending::Alpha.into_gl());
    let b = batch(Some(7), GlowBlending::Additive.into_gl());
    let commands = submit_commands(&[(a, 0..2), (b, 2..5)]);
    assert_eq!(count_use_program(&commands), 1);
    assert_eq!(count_blending(&commands), 2);
    // One indexed draw per batch, over exactly its range.
    let draws: Vec<_> = commands
        .iter()
        .filter_map(|c| match c {
            GlowCommand::DrawTriangles { start, count } => Some((*start, *count)),
            _ => None,
        })
        .collect();
    assert_eq!(draws, vec![(0, 2), (2, 3)]);
}

#[test]
fn first_batch_emits_its_full_state() {
    let mut a = batch(Some(3), GlowBlending::Alpha.into_gl());
    a.uniforms.push(("u_m".to_owned(), GlowUniformValue::I1(4)));
    a.textures.push((11, 0x8C1A, 0x2600, 0x2600));
    let commands = submit_commands(&[(a, 0..1)]);
    assert!(commands.contains(&GlowCommand::UseProgram(3)));
    assert!(commands.contains(&GlowCommand::SetUniform {
        name: "u_m".to_owned(),
        value: GlowUniformValue::I1(4)
    }));
    assert!(commands.contains(&GlowCommand::ActiveTexture { unit: GL_TEXTURE0 }));
    assert!(commands.contains(&GlowCommand::BindTexture {
        target: 0x8C1A,
        handle: 11,
        min_filter: 0x2600,
        mag_filter: 0x2600,
    }));
    assert!(commands.contains(&GlowCommand::Blending(GlowBlending::Alpha.into_gl())));
    assert_eq!(commands.last(), Some(&GlowCommand::DrawTriangles { start: 0, count: 1 }));
}

#[test]
fn unchanged_uniforms_and_textures_are_not_resent() {
    let mut a = batch(Some(3), None);
    a.uniforms.push(("u_m".to_owned(), GlowUniformValue::I1(4)));
    a.textures.push((11, 0x8C1A, 0x2600, 0x2600));
    let mut b = batch(Some(3), None);
    b.uniforms.push(("u_m".to_owned(), GlowUniformValue::I1(4)));
    b.textures.push((11, 0x8C1A, 0x2600, 0x2600));
    let commands = submit_commands(&[(a, 0..1), (b, 1..2)]);
    // The second batch re-sends nothing: program, uniform and texture
    // are all unchanged; only its draw (and a texture unit select)
    // remains.
    let second_draw = GlowCommand::DrawTriangles { start: 1, count: 1 };
    let pos = commands.iter().position(|c| *c == second_draw).unwrap();
    let first_draw = GlowCommand::DrawTriangles { start: 0, count: 1 };
    let first = commands.iter().position(|c| *c == first_draw).unwrap();
    let between = &commands[first + 1..pos];
    assert_eq!(between, &[GlowCommand::ActiveTexture { unit: GL_TEXTURE0 }]);
}

#[test]
fn changed_uniform_value_is_resent() {
    let mut a = batch(Some(3), None);
    a.uniforms.push(("u_m".to_owned(), GlowUniformValue::I1(4)));
    let mut b = batch(Some(3), None);
    b.uniforms.push(("u_m".to_owned(), GlowUniformValue::I1(5)));
    let commands = submit_commands(&[(a, 0..1), (b, 1..2)]);
    let sends: Vec<_> = commands
        .iter()
        .filter(|c| matches!(c, GlowCommand::SetUniform { .. }))
        .collect();
    assert_eq!(sends.len(), 2);
}

#[test]
fn uniform_missing_from_previous_batch_is_sent() {
    let a = batch(Some(3), None);
    let mut b = batch(Some(3), None);
    b.uniforms.push(("u_new".to_owned(), GlowUniformValue::F1(1)));
    let commands = submit_commands(&[(a, 0..1), (b, 1..2)]);
    assert!(commands.contains(&GlowCommand::SetUniform {
        name: "u_new".to_owned(),
        value: GlowUniformValue::F1(1)
    }));
}

#[test]
fn uniform_order_does_not_affect_batch_equality() {
    let mut a = batch(Some(1), None);
    a.uniforms.push(("u_a".to_owned(), GlowUniformValue::F1(1)));
    a.uniforms.push(("u_b".to_owned(), GlowUniformValue::F1(2)));
    let mut b = batch(Some(1), None);
    b.uniforms.push(("u_b".to_owned(), GlowUniformValue::F1(2)));
    b.uniforms.push(("u_a".to_owned(), GlowUniformValue::F1(1)));
    assert!(a == b);
    let mut c = batch(Some(1), None);
    c.uniforms.push(("u_b".to_owned(), GlowUniformValue::F1(2)));
    assert!(a != c);
    c.uniforms.push(("u_c".to_owned(), GlowUniformValue::F1(1)));
    assert!(a != c);
}
