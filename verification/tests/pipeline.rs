use ash::vk;

use viewport_vulkan::color::{Quotients, TransferFunction};
use viewport_vulkan::error::Error;
use viewport_vulkan::format::VkFormat;
use viewport_vulkan::pipeline::{
    spirv_words, BlendFactor, ColorConversion, Constants, Kind, Lookup, Matrix, Pipelines,
    PipelinesStage, Push, ShaderMap, Shaders, ONE, PUSH_BYTES, ZERO,
};
use viewport_vulkan::geometry::{Point, Rectangle, Size, Transform};
use viewport_vulkan::transform::{position, texture, Source};
use viewport_vulkan::vulkan::{Call, Object, Progress, Reply, Vec4};

fn row(start: u32) -> Vec4 {
    Vec4 {
        x: start,
        y: start + 1,
        z: start + 2,
        w: start + 3,
    }
}

/// What SDR's default white and PQ's peak are worth against each other.
fn quotients() -> Quotients {
    Quotients {
        reference_over_reference: ONE,
        reference_over_peak: (203.0f32 / 10_000.0).to_bits(),
        peak_over_reference: (10_000.0f32 / 203.0).to_bits(),
    }
}

fn numbered() -> Push {
    Push {
        pos_a: row(0),
        pos_b: row(4),
        tex_a: row(8),
        color: row(12),
        misc: row(16),
        csc0: row(20),
        csc1: row(24),
        csc2: row(28),
    }
}

#[test]
fn the_push_block_matches_the_shader_layout() {
    // Eight vec4s at 16-byte intervals, as the GLSL declares them. If this
    // drifts, geometry lands in the wrong place and nothing reports an error.
    let words = numbered().words();
    let offset = |row: Vec4| 4 * words.iter().position(|w| *w == row.x).expect("a row");
    assert_eq!(offset(numbered().pos_a), 0);
    assert_eq!(offset(numbered().pos_b), 16);
    assert_eq!(offset(numbered().tex_a), 32);
    assert_eq!(offset(numbered().color), 48);
    assert_eq!(offset(numbered().misc), 64);
    assert_eq!(offset(numbered().csc0), 80);
    assert_eq!(offset(numbered().csc1), 96);
    assert_eq!(offset(numbered().csc2), 112);
    // Exactly the minimum every implementation must provide. Adding anything
    // means finding somewhere else to put it.
    assert_eq!(words.len() * 4, 128);
    assert_eq!(PUSH_BYTES, 128);
    // And in order within each row.
    assert_eq!(words, (0..32).collect::<Vec<u32>>());
}

#[test]
fn small_numbers_are_their_single_precision_bits() {
    assert_eq!(ONE, 1.0f32.to_bits());
    assert_eq!(ZERO, 0.0f32.to_bits());
    let matrix = Matrix {
        row0: row(100),
        row1: row(200),
        row2: row(300),
    };
    for transfer in [
        TransferFunction::Linear,
        TransferFunction::Srgb,
        TransferFunction::Gamma22,
        TransferFunction::Gamma28,
        TransferFunction::Pq,
        TransferFunction::Hlg,
    ] {
        let push = numbered().with_color(transfer, TransferFunction::Srgb, quotients(), matrix);
        assert_eq!(push.misc.y, (transfer.as_code() as f32).to_bits());
        assert_eq!(push.misc.z, 1.0f32.to_bits());
    }
}

#[test]
fn a_plain_block_converts_nothing() {
    let position = ShaderMap {
        a: row(1),
        b: row(5),
    };
    let texture = ShaderMap {
        a: row(11),
        b: row(15),
    };
    let push = Push::new(position, texture, row(30), 99);
    assert_eq!(push.pos_a, row(1));
    // The texture origin rides in the spare half.
    assert_eq!(push.pos_b, Vec4 { x: 5, y: 6, z: 15, w: 16 });
    assert_eq!(push.tex_a, row(11));
    assert_eq!(push.color, row(30));
    assert_eq!(push.misc, Vec4 { x: 99, y: ZERO, z: ZERO, w: ONE });
    assert_eq!(push.csc0, Vec4 { x: ONE, y: ZERO, z: ZERO, w: ZERO });
    assert_eq!(push.csc1, Vec4 { x: ZERO, y: ONE, z: ZERO, w: ZERO });
    assert_eq!(push.csc2, Vec4 { x: ZERO, y: ZERO, z: ONE, w: ZERO });
}

#[test]
fn each_pair_of_curves_has_its_scale() {
    let matrix = Matrix {
        row0: row(100),
        row1: row(200),
        row2: row(300),
    };
    let dim = Quotients {
        reference_over_reference: (100.0f32 / 203.0).to_bits(),
        ..quotients()
    };
    let scale = |from, to| {
        let push = numbered().with_color(from, to, dim, matrix);
        assert_eq!(push.csc0, Vec4 { x: 100, y: 101, z: 102, w: ZERO });
        assert_eq!(push.csc1, Vec4 { x: 200, y: 201, z: 202, w: ZERO });
        assert_eq!(push.csc2, Vec4 { x: 300, y: 301, z: 302, w: ZERO });
        f32::from_bits(push.misc.w)
    };
    let (sdr, pq) = (TransferFunction::Srgb, TransferFunction::Pq);
    assert_eq!(scale(sdr, TransferFunction::Hlg), 100.0 / 203.0);
    assert_eq!(scale(sdr, pq), 203.0 / 10_000.0);
    assert_eq!(scale(pq, sdr), 10_000.0 / 203.0);
    assert_eq!(scale(pq, pq), 1.0);
}

#[test]
fn constants_become_the_block_their_maps_give() {
    let place = Rectangle {
        loc: Point { x: 0, y: 0 },
        size: Size { w: 8, h: 8 },
    };
    let solid = Constants {
        position: position(place, Size { w: 16, h: 16 }, Transform::Normal),
        sampling: None,
        color: row(30),
        alpha: ONE,
        conversion: None,
        opaque: false,
    };
    let (at, from) = (
        ShaderMap { a: row(1), b: row(5) },
        ShaderMap { a: row(11), b: row(15) },
    );
    // Nothing is sampled, so the second map is the identity.
    let none = ShaderMap {
        a: Vec4 { x: ONE, y: ZERO, z: ZERO, w: ONE },
        b: Vec4 { x: ZERO, y: ZERO, z: ZERO, w: ZERO },
    };
    assert_eq!(solid.push(at, None), Push::new(at, none, row(30), ONE));

    let bits = |n: f64| n.to_bits();
    let source = Source { x: bits(0.0), y: bits(0.0), w: bits(4.0), h: bits(4.0) };
    let matrix = Matrix {
        row0: row(100),
        row1: row(200),
        row2: row(300),
    };
    let textured = Constants {
        sampling: Some(texture(source, 4, 4, Transform::Normal, false)),
        conversion: Some(ColorConversion {
            from: TransferFunction::Pq,
            to: TransferFunction::Srgb,
            quotients: quotients(),
            matrix,
        }),
        opaque: true,
        ..solid
    };
    let push = textured.push(at, Some(from));
    assert_eq!(push.tex_a, row(11));
    assert_eq!(push.pos_b, Vec4 { x: 5, y: 6, z: 15, w: 16 });
    assert_eq!(push.misc.w, (10_000.0f32 / 203.0).to_bits());
    assert_eq!(push.csc0, Vec4 { x: 100, y: 101, z: 102, w: ONE });
}

#[test]
fn conversion_and_opacity_keep_the_geometry() {
    let matrix = Matrix {
        row0: row(100),
        row1: row(200),
        row2: row(300),
    };
    let push = numbered()
        .with_color(TransferFunction::Srgb, TransferFunction::Srgb, quotients(), matrix)
        .with_opaque(true);
    assert_eq!(push.pos_a, numbered().pos_a);
    assert_eq!(push.pos_b, numbered().pos_b);
    assert_eq!(push.tex_a, numbered().tex_a);
    assert_eq!(push.color, numbered().color);
    assert_eq!(push.misc.x, numbered().misc.x);
    assert_eq!(push.csc0, Vec4 { x: 100, y: 101, z: 102, w: ONE });
    assert_eq!(push.with_opaque(false).csc0.w, ZERO);
}

#[test]
fn spirv_is_read_a_little_endian_word_at_a_time() {
    // 0x07230203 is the SPIR-V magic number.
    let words = spirv_words(&vec![0x03, 0x02, 0x23, 0x07, 0, 0, 1, 0]).expect("two words");
    assert_eq!(words, vec![0x0723_0203, 0x0001_0000]);
    let error = spirv_words(&vec![0x03, 0x02, 0x23]).expect_err("three bytes");
    assert_eq!(error.message(), "SPIR-V is not a whole number of words");
}

fn shaders() -> Shaders {
    Shaders {
        vertex: vec![1, 0, 0, 0],
        solid: vec![2, 0, 0, 0],
        texture: vec![3, 0, 0, 0],
    }
}

/// Build the shared objects, numbering them from 1.
fn build() -> Pipelines {
    let mut stage = Pipelines::new();
    let mut handle = 0;
    loop {
        stage.call(&shaders()).expect("a request");
        handle += 1;
        match stage.reply(Reply::Handle(handle)) {
            Progress::Next(next) => stage = next,
            Progress::Done(pipelines) => return pipelines,
            Progress::Failed { error, .. } => panic!("{}", error.message()),
        }
    }
}

#[test]
fn the_shared_objects_are_made_in_order() {
    let mut stage = Pipelines::new();
    for code in [1, 2, 3] {
        match stage.call(&shaders()) {
            Ok(Call::CreateShaderModule { code: words }) => assert_eq!(words, vec![code]),
            other => panic!("{other:?}"),
        }
        stage = match stage.reply(Reply::Handle(code as u64)) {
            Progress::Next(next) => next,
            other => panic!("{other:?}"),
        };
    }
    assert!(matches!(stage.call(&shaders()), Ok(Call::CreateSampler)));

    let pipelines = build();
    assert_eq!(pipelines.layout(), 6);
    assert_eq!(pipelines.sampler(), 4);
    assert_eq!(
        pipelines.release(),
        vec![
            Object::PipelineLayout(6),
            Object::DescriptorSetLayout(5),
            Object::Sampler(4),
            Object::ShaderModule(1),
            Object::ShaderModule(2),
            Object::ShaderModule(3),
        ]
    );
}

#[test]
fn a_call_that_fails_is_named() {
    let stage = PipelinesStage::Sampler {
        vertex: 1,
        solid: 2,
        texture: 3,
    };
    let code = vk::Result::ERROR_OUT_OF_HOST_MEMORY;
    match stage.reply(Reply::Failed(code.as_raw())) {
        Progress::Failed { error, .. } => {
            assert_eq!(error.message(), format!("vkCreateSampler: {code}"));
        }
        other => panic!("{other:?}"),
    }
}

#[test]
fn a_pipeline_is_built_once_for_each_format_and_kind() {
    let mut pipelines = build();
    let info = match pipelines.get(VkFormat::B8G8R8A8Unorm, Kind::Texture) {
        Lookup::Missing(info) => info,
        other => panic!("{other:?}"),
    };
    assert_eq!(info.vertex, 1);
    assert_eq!(info.fragment, 3);
    assert_eq!(info.layout, 6);
    assert_eq!(info.format, VkFormat::B8G8R8A8Unorm);
    assert_eq!((info.viewport_count, info.scissor_count), (1, 1));
    // Premultiplied alpha.
    assert_eq!(info.src_factor, BlendFactor::One);
    assert_eq!(info.dst_factor, BlendFactor::OneMinusSrcAlpha);

    let built = pipelines
        .built(VkFormat::B8G8R8A8Unorm, Kind::Texture, Reply::Handle(40))
        .expect("a pipeline");
    assert_eq!(built, 40);
    assert_eq!(
        pipelines.get(VkFormat::B8G8R8A8Unorm, Kind::Texture),
        Lookup::Built(40)
    );
    // Neither the other kind nor another format is it.
    match pipelines.get(VkFormat::B8G8R8A8Unorm, Kind::Solid) {
        Lookup::Missing(info) => assert_eq!(info.fragment, 2),
        other => panic!("{other:?}"),
    }
    assert!(matches!(
        pipelines.get(VkFormat::R8G8B8A8Unorm, Kind::Texture),
        Lookup::Missing(_)
    ));
    assert_eq!(pipelines.release()[0], Object::Pipeline(40));

    let error: Error = pipelines
        .built(
            VkFormat::R8G8B8A8Unorm,
            Kind::Solid,
            Reply::Failed(vk::Result::ERROR_OUT_OF_DEVICE_MEMORY.as_raw()),
        )
        .expect_err("the driver refused");
    assert!(
        error.message().starts_with("vkCreateGraphicsPipelines: "),
        "{}",
        error.message()
    );
}
