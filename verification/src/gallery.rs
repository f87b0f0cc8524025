//! Choosing and configuring an effect before it is made. What is chosen here
//! is kept apart from what is saved, so that leaving changes nothing.
use crate::effect_model::{
    copy_parameters, ChannelPolicy, EffectConfig, EffectConfigView, EffectInstance,
};
use crate::ids::NodeId;
use crate::lists::{first_in, lemma_first_in, lemma_none_in};
use crate::text::{
    concat2, concat3, decimal, decimal_text, digit_char, in_base, number_in_base, text_eq,
};
use crate::text_table::TextTable;
use vstd::prelude::*;

verus! {

/// One parameter of an effect. Numbers are bit patterns of 32-bit floating
/// point numbers.
#[derive(Debug, PartialEq, Eq)]
pub struct ParameterDescriptor {
    pub id: String,
    pub name: String,
    pub minimum: u32,
    pub maximum: u32,
    pub default: u32,
    pub unit: String,
}

/// An effect that can be made.
#[derive(Debug, PartialEq, Eq)]
pub struct EffectDescriptor {
    pub id: String,
    pub name: String,
    pub parameters: Vec<ParameterDescriptor>,
}

/// The step of the gallery.
#[derive(Clone, Copy, Debug, PartialEq, Eq, Structural)]
pub enum EffectGalleryPhase {
    Choose,
    Configure,
}

impl Default for EffectGalleryPhase {
    fn default() -> (r: EffectGalleryPhase)
        ensures
            r == EffectGalleryPhase::Choose,
    {
        EffectGalleryPhase::Choose
    }
}

impl EffectGalleryPhase {
    pub open spec fn number(self) -> usize {
        match self {
            EffectGalleryPhase::Choose => 0,
            EffectGalleryPhase::Configure => 1,
        }
    }

    pub fn index(self) -> (r: usize)
        ensures
            r == self.number(),
    {
        match self {
            EffectGalleryPhase::Choose => 0,
            EffectGalleryPhase::Configure => 1,
        }
    }
}

/// What is chosen in the gallery.
#[derive(Debug, PartialEq, Eq)]
pub struct EffectGalleryState {
    pub phase: EffectGalleryPhase,
    pub effect_id: String,
    pub enabled: bool,
    pub parameters: TextTable<u32>,
    pub scroll_epoch: u32,
}

/// The contents of an [`EffectGalleryState`].
#[verifier::ext_equal]
pub struct GalleryView {
    pub phase: EffectGalleryPhase,
    pub effect_id: Seq<char>,
    pub enabled: bool,
    pub parameters: Map<Seq<char>, u32>,
    pub scroll_epoch: u32,
}

impl View for EffectGalleryState {
    type V = GalleryView;

    open spec fn view(&self) -> GalleryView {
        GalleryView {
            phase: self.phase,
            effect_id: self.effect_id@,
            enabled: self.enabled,
            parameters: self.parameters@,
            scroll_epoch: self.scroll_epoch,
        }
    }
}

/// The defaults of the first parameters. Of two with one name the later
/// counts.
pub open spec fn defaults(parameters: Seq<ParameterDescriptor>, n: int) -> Map<Seq<char>, u32>
    decreases n,
{
    if n <= 0 {
        Map::empty()
    } else {
        defaults(parameters, n - 1).insert(parameters[n - 1].id@, parameters[n - 1].default)
    }
}

pub fn default_parameters(descriptor: &EffectDescriptor) -> (r: TextTable<u32>)
    ensures
        r.wf(),
        r@ == defaults(descriptor.parameters@, descriptor.parameters@.len() as int),
{
    let mut table: TextTable<u32> = TextTable::new();
    let mut i: usize = 0;
    while i < descriptor.parameters.len()
        invariant
            i <= descriptor.parameters.len(),
            table.wf(),
            table@ == defaults(descriptor.parameters@, i as int),
        decreases descriptor.parameters.len() - i,
    {
        table.insert(descriptor.parameters[i].id.clone(), descriptor.parameters[i].default);
        i = i + 1;
    }
    table
}

/// The number after another, beginning again behind the largest.
pub open spec fn next_epoch(epoch: u32) -> u32 {
    if epoch == u32::MAX {
        0
    } else {
        (epoch + 1) as u32
    }
}

impl GalleryView {
    /// A gallery that was just opened.
    pub open spec fn opened(descriptor: EffectDescriptor, scroll_epoch: u32) -> GalleryView {
        GalleryView {
            phase: EffectGalleryPhase::Choose,
            effect_id: descriptor.id@,
            enabled: true,
            parameters: defaults(
                descriptor.parameters@,
                descriptor.parameters@.len() as int,
            ),
            scroll_epoch,
        }
    }

    /// At another step. A step that is another scrolls to its top.
    pub open spec fn at(self, phase: EffectGalleryPhase) -> GalleryView {
        if self.phase == phase {
            self
        } else {
            GalleryView { phase, scroll_epoch: next_epoch(self.scroll_epoch), ..self }
        }
    }
}

impl EffectGalleryState {
    pub open spec fn wf(&self) -> bool {
        self.parameters.wf()
    }

    pub fn new(descriptor: &EffectDescriptor, scroll_epoch: u32) -> (r: EffectGalleryState)
        ensures
            r.wf(),
            r@ == GalleryView::opened(*descriptor, scroll_epoch),
    {
        EffectGalleryState {
            phase: EffectGalleryPhase::Choose,
            effect_id: descriptor.id.clone(),
            enabled: true,
            parameters: default_parameters(descriptor),
            scroll_epoch,
        }
    }

    pub fn next_phase(&mut self)
        ensures
            final(self)@ == old(self)@.at(EffectGalleryPhase::Configure),
            final(self).parameters == old(self).parameters,
    {
        if self.phase == EffectGalleryPhase::Choose {
            self.phase = EffectGalleryPhase::Configure;
            self.scroll_epoch = self.scroll_epoch.wrapping_add(1);
        }
    }

    pub fn previous_phase(&mut self)
        ensures
            final(self)@ == old(self)@.at(EffectGalleryPhase::Choose),
            final(self).parameters == old(self).parameters,
    {
        if self.phase == EffectGalleryPhase::Configure {
            self.phase = EffectGalleryPhase::Choose;
            self.scroll_epoch = self.scroll_epoch.wrapping_add(1);
        }
    }

    pub fn toggle_enabled(&mut self)
        ensures
            final(self)@ == (GalleryView { enabled: !old(self)@.enabled, ..old(self)@ }),
            final(self).parameters == old(self).parameters,
    {
        self.enabled = !self.enabled;
    }

    pub fn set_parameter(&mut self, id: String, value: u32)
        requires
            old(self).wf(),
        ensures
            final(self).wf(),
            final(self)@ == (GalleryView {
                parameters: old(self)@.parameters.insert(id@, value),
                ..old(self)@
            }),
    {
        self.parameters.insert(id, value);
    }
}

/// Going to a step and back leaves the choice as it was.
pub proof fn law_steps_keep_the_choice(gallery: GalleryView, phase: EffectGalleryPhase)
    ensures
        gallery.at(phase).effect_id == gallery.effect_id,
        gallery.at(phase).enabled == gallery.enabled,
        gallery.at(phase).parameters == gallery.parameters,
        gallery.at(phase).at(phase) == gallery.at(phase),
{
}

/// The effects that can be chosen: those of the backend, or the built-in ones
/// where it offers none.
pub fn available_descriptors(
    offered: Vec<EffectDescriptor>,
    built_in: Vec<EffectDescriptor>,
) -> (r: Vec<EffectDescriptor>)
    ensures
        r == (if offered@.len() == 0 {
            built_in
        } else {
            offered
        }),
{
    if offered.len() == 0 {
        built_in
    } else {
        offered
    }
}

/// The effect that a name stands for.
pub open spec fn describes(id: Seq<char>) -> spec_fn(EffectDescriptor) -> bool {
    |descriptor: EffectDescriptor| descriptor.id@ == id
}

pub fn find_descriptor(descriptors: &Vec<EffectDescriptor>, id: &str) -> (r: Option<usize>)
    ensures
        match r {
            Some(i) => i < descriptors@.len() && first_in(descriptors@, describes(id@)) == Some(
                descriptors@[i as int],
            ),
            None => first_in(descriptors@, describes(id@)) is None,
        },
{
    let mut i: usize = 0;
    while i < descriptors.len()
        invariant
            i <= descriptors.len(),
            forall|j: int| 0 <= j < i ==> !describes(id@)(#[trigger] descriptors@[j]),
        decreases descriptors.len() - i,
    {
        if text_eq(descriptors[i].id.as_str(), id) {
            proof {
                lemma_first_in(descriptors@, describes(id@), i as int);
            }
            return Some(i);
        }
        i = i + 1;
    }
    proof {
        lemma_none_in(descriptors@, describes(id@));
    }
    None
}

/// A parameter as a control shows it.
#[derive(Debug, PartialEq, Eq)]
pub struct ParameterControl {
    pub id: String,
    pub name: String,
    pub minimum: u32,
    pub maximum: u32,
    pub value: u32,
    pub unit: String,
    pub boolean: bool,
}

/// The control shows the parameter with the value that was set, or with the
/// default where none was.
pub open spec fn control_shows(
    control: ParameterControl,
    parameter: ParameterDescriptor,
    values: Map<Seq<char>, u32>,
) -> bool {
    &&& control.id@ == parameter.id@
    &&& control.name@ == parameter.name@
    &&& control.minimum == parameter.minimum
    &&& control.maximum == parameter.maximum
    &&& control.value == (if values.contains_key(parameter.id@) {
        values[parameter.id@]
    } else {
        parameter.default
    })
    &&& control.unit@ == parameter.unit@
    &&& control.boolean == (parameter.unit@ == "boolean"@)
}

/// The controls of an effect.
pub open spec fn controls_show(
    controls: Seq<ParameterControl>,
    descriptor: EffectDescriptor,
    values: Map<Seq<char>, u32>,
) -> bool {
    &&& controls.len() == descriptor.parameters@.len()
    &&& forall|i: int|
        0 <= i < controls.len() ==> control_shows(
            #[trigger] controls[i],
            descriptor.parameters@[i],
            values,
        )
}

pub fn parameter_controls(descriptor: &EffectDescriptor, values: &TextTable<u32>) -> (r: Vec<
    ParameterControl,
>)
    requires
        values.wf(),
    ensures
        controls_show(r@, *descriptor, values@),
{
    let mut controls: Vec<ParameterControl> = Vec::new();
    let mut i: usize = 0;
    while i < descriptor.parameters.len()
        invariant
            i <= descriptor.parameters.len(),
            values.wf(),
            controls@.len() == i,
            forall|j: int|
                0 <= j < i ==> control_shows(
                    #[trigger] controls@[j],
                    descriptor.parameters@[j],
                    values@,
                ),
        decreases descriptor.parameters.len() - i,
    {
        let parameter = &descriptor.parameters[i];
        let value: u32 = match values.get(parameter.id.as_str()) {
            Some(value) => *value,
            None => parameter.default,
        };
        controls.push(
            ParameterControl {
                id: parameter.id.clone(),
                name: parameter.name.clone(),
                minimum: parameter.minimum,
                maximum: parameter.maximum,
                value,
                unit: parameter.unit.clone(),
                boolean: text_eq(parameter.unit.as_str(), "boolean"),
            },
        );
        i = i + 1;
    }
    controls
}

/// The controls at an effect's node.
#[derive(Debug, PartialEq, Eq)]
pub struct EffectNodeControl {
    pub node_id: NodeId,
    pub enabled: bool,
    pub parameters: Vec<ParameterControl>,
}

/// The instances whose effect is known.
pub open spec fn described(instances: Seq<EffectInstance>, descriptors: Seq<EffectDescriptor>) -> Seq<
    EffectInstance,
> {
    crate::lists::kept(
        instances,
        |instance: EffectInstance|
            first_in(descriptors, describes(instance.config.effect_id@)) is Some,
    )
}

/// The control belongs to the instance.
pub open spec fn node_control_shows(
    control: EffectNodeControl,
    instance: EffectInstance,
    descriptors: Seq<EffectDescriptor>,
) -> bool {
    &&& control.node_id == instance.node_id
    &&& control.enabled == instance.config.enabled
    &&& first_in(descriptors, describes(instance.config.effect_id@)) matches Some(descriptor)
        && controls_show(control.parameters@, descriptor, instance.config.parameters@)
}

/// The controls of the effects in a graph. An effect that is not described
/// has none.
pub fn effect_controls(instances: &Vec<EffectInstance>, descriptors: &Vec<EffectDescriptor>) -> (r:
    Vec<EffectNodeControl>)
    requires
        forall|i: int| 0 <= i < instances@.len() ==> (#[trigger] instances@[i]).config.wf(),
    ensures
        r@.len() == described(instances@, descriptors@).len(),
        forall|i: int|
            0 <= i < r@.len() ==> node_control_shows(
                #[trigger] r@[i],
                described(instances@, descriptors@)[i],
                descriptors@,
            ),
{
    let ghost p = |instance: EffectInstance|
        first_in(descriptors@, describes(instance.config.effect_id@)) is Some;
    let mut controls: Vec<EffectNodeControl> = Vec::new();
    let mut i: usize = 0;
    while i < instances.len()
        invariant
            i <= instances.len(),
            p == (|instance: EffectInstance|
                first_in(descriptors@, describes(instance.config.effect_id@)) is Some),
            forall|j: int| 0 <= j < instances@.len() ==> (#[trigger] instances@[j]).config.wf(),
            controls@.len() == crate::lists::kept(instances@.take(i as int), p).len(),
            forall|j: int|
                0 <= j < controls@.len() ==> node_control_shows(
                    #[trigger] controls@[j],
                    crate::lists::kept(instances@.take(i as int), p)[j],
                    descriptors@,
                ),
        decreases instances.len() - i,
    {
        let instance = &instances[i];
        proof {
            crate::lists::lemma_kept_step(instances@, p, i as int);
        }
        if let Some(found) = find_descriptor(descriptors, instance.config.effect_id.as_str()) {
            controls.push(
                EffectNodeControl {
                    node_id: instance.node_id,
                    enabled: instance.config.enabled,
                    parameters: parameter_controls(
                        &descriptors[found],
                        &instance.config.parameters,
                    ),
                },
            );
        }
        i = i + 1;
    }
    assert(instances@.take(i as int) =~= instances@);
    controls
}

/// The name of the next instance: the time and a count, both in base sixteen.
pub open spec fn effect_id_of(nanos: nat, sequence: nat) -> Seq<char> {
    "effect-"@ + in_base(nanos, 16) + "-"@ + in_base(sequence, 16)
}

pub fn unique_effect_id(nanos: u128, sequence: u64) -> (r: String)
    ensures
        r@ == effect_id_of(nanos as nat, sequence as nat),
{
    let time = number_in_base(nanos, 16);
    let count = number_in_base(sequence as u128, 16);
    concat2(concat3("effect-", time.as_str(), "-").as_str(), count.as_str())
}

proof fn lemma_digits(n: nat)
    ensures
        in_base(n, 16).len() >= 1,
        n >= 16 ==> in_base(n, 16).len() >= 2,
        !in_base(n, 16).contains('-'),
    decreases n,
{
    if n >= 16 {
        lemma_digits(n / 16);
        let rest = in_base(n / 16, 16);
        let last = digit_char(n % 16);
        assert(in_base(n, 16) == rest.push(last));
        if in_base(n, 16).contains('-') {
            let i = choose|i: int| 0 <= i < in_base(n, 16).len() && in_base(n, 16)[i] == '-';
            if i < rest.len() {
                assert(rest[i] == '-');
                assert(rest.contains('-'));
            } else {
                assert(last == '-');
            }
        }
    } else {
        assert(in_base(n, 16) == seq![digit_char(n)]);
    }
}

proof fn lemma_digit_values(a: nat, b: nat)
    requires
        a < 16,
        b < 16,
        digit_char(a) == digit_char(b),
    ensures
        a == b,
{
    assert(digit_char(a) as u32 == (if a < 10 {
        48 + a
    } else {
        87 + a
    }));
    assert(digit_char(b) as u32 == (if b < 10 {
        48 + b
    } else {
        87 + b
    }));
}

proof fn lemma_digits_differ(a: nat, b: nat)
    requires
        in_base(a, 16) == in_base(b, 16),
    ensures
        a == b,
    decreases a,
{
    lemma_digits(a);
    lemma_digits(b);
    if a < 16 {
        assert(in_base(a, 16) == seq![digit_char(a)]);
        assert(b < 16) by {
            if b >= 16 {
                assert(in_base(b, 16).len() >= 2);
            }
        }
        assert(in_base(b, 16) == seq![digit_char(b)]);
        assert(in_base(a, 16)[0] == digit_char(a));
        assert(in_base(b, 16)[0] == digit_char(b));
        lemma_digit_values(a, b);
    } else {
        assert(b >= 16) by {
            if b < 16 {
                assert(in_base(b, 16) == seq![digit_char(b)]);
            }
        }
        let x = in_base(a / 16, 16);
        let y = in_base(b / 16, 16);
        assert(in_base(a, 16) == x.push(digit_char(a % 16)));
        assert(in_base(b, 16) == y.push(digit_char(b % 16)));
        assert(in_base(a, 16).drop_last() =~= x);
        assert(in_base(b, 16).drop_last() =~= y);
        assert(in_base(a, 16).last() == digit_char(a % 16));
        assert(in_base(b, 16).last() == digit_char(b % 16));
        lemma_digit_values(a % 16, b % 16);
        lemma_digits_differ(a / 16, b / 16);
    }
}

/// Two instances have the same name only if both their times and their counts
/// are the same.
pub proof fn law_effect_ids_are_unique(a: nat, m: nat, b: nat, n: nat)
    requires
        effect_id_of(a, m) == effect_id_of(b, n),
    ensures
        a == b,
        m == n,
{
    reveal_strlit("effect-");
    reveal_strlit("-");
    lemma_digits(a);
    lemma_digits(b);
    lemma_digits(m);
    lemma_digits(n);
    let x = in_base(a, 16);
    let y = in_base(b, 16);
    let left = effect_id_of(a, m);
    let right = effect_id_of(b, n);
    let i = 7 + x.len() as int;
    let j = 7 + y.len() as int;
    assert(left[i] == '-');
    assert(right[j] == '-');
    if i < j {
        assert(right[i] == y[i - 7]);
        assert(y.contains(y[i - 7]));
    }
    if j < i {
        assert(left[j] == x[j - 7]);
        assert(x.contains(x[j - 7]));
    }
    assert(left.subrange(7, i) =~= x);
    assert(right.subrange(7, j) =~= y);
    assert(left.skip(i + 1) =~= in_base(m, 16));
    assert(right.skip(j + 1) =~= in_base(n, 16));
    lemma_digits_differ(a, b);
    lemma_digits_differ(m, n);
}

/// The line below the gallery: the status, the chosen effect and the step.
pub open spec fn gallery_line(status: Seq<char>, gallery: GalleryView) -> Seq<char> {
    status + " · "@ + gallery.effect_id + " · step "@ + decimal(
        (gallery.phase.number() + 1) as nat,
    ) + "/2"@
}

pub fn gallery_message(status: &str, gallery: &EffectGalleryState) -> (r: String)
    ensures
        r@ == gallery_line(status@, gallery@),
{
    let step: u64 = match gallery.phase {
        EffectGalleryPhase::Choose => 1,
        EffectGalleryPhase::Configure => 2,
    };
    let head = concat3(status, " · ", gallery.effect_id.as_str());
    let tail = concat3(" · step ", decimal_text(step).as_str(), "/2");
    let r = concat2(head.as_str(), tail.as_str());
    assert(r@ =~= gallery_line(status@, gallery@));
    r
}

/// What is made of a choice: the effect that was chosen, under a new name, or
/// the key of the message that says why nothing is made.
pub fn gallery_request(
    supported: bool,
    descriptors: &Vec<EffectDescriptor>,
    gallery: &EffectGalleryState,
    instance_id: String,
) -> (r: Result<EffectConfig, &'static str>)
    requires
        gallery.wf(),
    ensures
        if !supported {
            r matches Err(key) && key@ == "effects.backend_unavailable"@
        } else if first_in(descriptors@, describes(gallery@.effect_id)) is None {
            r matches Err(key) && key@ == "effects.no_available"@
        } else {
            r matches Ok(config) && config.wf() && config@ == (EffectConfigView {
                instance_id: instance_id@,
                effect_id: gallery@.effect_id,
                module: None,
                enabled: gallery@.enabled,
                parameters: gallery@.parameters,
                channel_policy: ChannelPolicy::Auto,
            })
        },
{
    if !supported {
        return Err("effects.backend_unavailable");
    }
    match find_descriptor(descriptors, gallery.effect_id.as_str()) {
        None => Err("effects.no_available"),
        Some(_) => Ok(
            EffectConfig {
                instance_id,
                effect_id: gallery.effect_id.clone(),
                module: None,
                enabled: gallery.enabled,
                parameters: copy_parameters(&gallery.parameters),
                channel_policy: ChannelPolicy::Auto,
            },
        ),
    }
}

/// A gallery opens at the choice, with the effect that was named, switched on,
/// and with the default of every parameter; of two parameters of one name the
/// last counts.
pub proof fn law_opened_galleries(descriptor: EffectDescriptor, epoch: u32, i: int)
    requires
        0 <= i < descriptor.parameters@.len(),
        forall|j: int|
            i < j < descriptor.parameters@.len() ==> (#[trigger] descriptor.parameters@[j]).id@
                != descriptor.parameters@[i].id@,
    ensures
        ({
            let g = GalleryView::opened(descriptor, epoch);
            &&& g.phase == EffectGalleryPhase::Choose
            &&& g.effect_id == descriptor.id@
            &&& g.enabled
            &&& g.parameters.contains_key(descriptor.parameters@[i].id@)
            &&& g.parameters[descriptor.parameters@[i].id@] == descriptor.parameters@[i].default
            &&& g.scroll_epoch == epoch
        }),
{
    lemma_default_of(descriptor.parameters@, descriptor.parameters@.len() as int, i);
}

proof fn lemma_default_of(parameters: Seq<ParameterDescriptor>, n: int, i: int)
    requires
        0 <= i < n <= parameters.len(),
        forall|j: int| i < j < n ==> (#[trigger] parameters[j]).id@ != parameters[i].id@,
    ensures
        defaults(parameters, n).contains_key(parameters[i].id@),
        defaults(parameters, n)[parameters[i].id@] == parameters[i].default,
    decreases n,
{
    if i < n - 1 {
        assert(parameters[n - 1].id@ != parameters[i].id@);
        lemma_default_of(parameters, n - 1, i);
    }
}

/// Only the parameters of the effect have a default.
pub proof fn law_no_other_defaults(
    parameters: Seq<ParameterDescriptor>,
    n: int,
    id: Seq<char>,
)
    requires
        0 <= n <= parameters.len(),
        defaults(parameters, n).contains_key(id),
    ensures
        exists|i: int| 0 <= i < n && (#[trigger] parameters[i]).id@ == id,
    decreases n,
{
    if n > 0 {
        if parameters[n - 1].id@ != id {
            law_no_other_defaults(parameters, n - 1, id);
        }
    }
}

/// A step to another phase reaches it and scrolls anew; the two phases are
/// numbered in order.
pub proof fn law_gallery_steps(gallery: GalleryView, phase: EffectGalleryPhase)
    ensures
        gallery.at(phase).phase == phase,
        gallery.phase != phase ==> gallery.at(phase).scroll_epoch == next_epoch(
            gallery.scroll_epoch,
        ),
        gallery.scroll_epoch < u32::MAX ==> next_epoch(gallery.scroll_epoch)
            == gallery.scroll_epoch + 1,
        EffectGalleryPhase::Choose.number() == 0,
        EffectGalleryPhase::Configure.number() == 1,
{
}

/// A control shows its parameter with the value that was set, failing that
/// with the default.
pub proof fn law_controls_show_values(
    control: ParameterControl,
    parameter: ParameterDescriptor,
    values: Map<Seq<char>, u32>,
)
    requires
        control_shows(control, parameter, values),
    ensures
        control.id@ == parameter.id@,
        control.name@ == parameter.name@,
        control.unit@ == parameter.unit@,
        control.minimum == parameter.minimum && control.maximum == parameter.maximum,
        values.contains_key(parameter.id@) ==> control.value == values[parameter.id@],
        !values.contains_key(parameter.id@) ==> control.value == parameter.default,
        control.boolean <==> parameter.unit@ == "boolean"@,
{
}

/// A descriptor is found by its name: the first, and none just where none
/// bears it. Only effects that are described have controls.
pub proof fn law_found_descriptors(
    descriptors: Seq<EffectDescriptor>,
    id: Seq<char>,
    instances: Seq<EffectInstance>,
    instance: EffectInstance,
)
    ensures
        match first_in(descriptors, describes(id)) {
            Some(d) => d.id@ == id && descriptors.contains(d),
            None => forall|i: int|
                0 <= i < descriptors.len() ==> (#[trigger] descriptors[i]).id@ != id,
        },
        described(instances, descriptors).contains(instance) <==> instances.contains(instance)
            && exists|i: int|
            0 <= i < descriptors.len() && (#[trigger] descriptors[i]).id@
                == instance.config.effect_id@,
{
    crate::lists::law_first_in(descriptors, describes(id));
    crate::lists::law_first_in(descriptors, describes(instance.config.effect_id@));
    if first_in(descriptors, describes(id)) is None {
        assert forall|i: int| 0 <= i < descriptors.len() implies (#[trigger] descriptors[i]).id@
            != id by {
            assert(descriptors.contains(descriptors[i]));
            assert(!describes(id)(descriptors[i]));
        }
    }
    if first_in(descriptors, describes(instance.config.effect_id@)) is None {
        assert forall|i: int| 0 <= i < descriptors.len() implies (#[trigger] descriptors[i]).id@
            != instance.config.effect_id@ by {
            assert(descriptors.contains(descriptors[i]));
            assert(!describes(instance.config.effect_id@)(descriptors[i]));
        }
    }
    crate::lists::lemma_kept_members(
        instances,
        |instance: EffectInstance|
            first_in(descriptors, describes(instance.config.effect_id@)) is Some,
        instance,
    );
}

} // verus!
